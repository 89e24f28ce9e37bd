use vstd::prelude::*;

use crate::state::board_square::BoardSquare;
use crate::state::position::{on_board, Position};

verus! {

/// An 8x8 occupancy map from squares to optional occupants.
///
/// The board is a pure occupancy store: it holds no move-legality knowledge.
/// Squares are read and written through bounds-checked positions only.
pub struct Board {
    squares: Vec<Option<BoardSquare>>,
}

impl Board {
    /// The fixed 8x8 extent is in place.
    pub closed spec fn wf(self) -> bool {
        self.squares@.len() == 64
    }

    /// The occupant of the square at (rank, file).
    pub closed spec fn at(self, rank: int, file: int) -> Option<BoardSquare>
        recommends
            self.wf(),
            on_board(rank, file),
    {
        self.squares@[rank * 8 + file]
    }

    /// An empty board.
    pub fn new() -> (b: Board)
        ensures
            b.wf(),
            forall|r: int, f: int|
                on_board(r, f) ==> b.at(r, f) == Option::<BoardSquare>::None,
    {
        let mut squares: Vec<Option<BoardSquare>> = Vec::new();
        let mut i: usize = 0;
        while i < 64
            invariant
                i <= 64,
                squares@.len() == i,
                forall|j: int| 0 <= j < i ==> squares@[j] == Option::<BoardSquare>::None,
            decreases 64 - i,
        {
            squares.push(Option::None);
            i = i + 1;
        }
        let b = Board { squares };
        proof {
            assert forall|r: int, f: int|
                on_board(r, f) implies b.at(r, f) == Option::<BoardSquare>::None by {
                assert(0 <= r * 8 + f < 64);
            }
        }
        b
    }

    /// Read the occupant at `position`; never mutates.
    pub fn get_piece(&self, position: &Position) -> (r: Option<BoardSquare>)
        requires
            self.wf(),
            position.wf(),
        ensures
            r == self.at(position.rank as int, position.file as int),
    {
        let idx: usize = (position.rank as usize) * 8 + (position.file as usize);
        self.squares[idx]
    }

    /// Replace whatever occupies `position` with `square`.
    pub fn set_piece(&mut self, position: &Position, square: BoardSquare)
        requires
            old(self).wf(),
            position.wf(),
        ensures
            final(self).wf(),
            final(self).at(position.rank as int, position.file as int)
                == Option::Some(square),
            forall|r: int, f: int|
                on_board(r, f) && !(r == position.rank as int && f == position.file as int)
                    ==> final(self).at(r, f) == old(self).at(r, f),
    {
        let idx: usize = (position.rank as usize) * 8 + (position.file as usize);
        self.squares[idx] = Option::Some(square);
        proof {
            assert forall|r: int, f: int|
                on_board(r, f) && !(r == position.rank as int && f == position.file as int)
                    implies self.at(r, f) == old(self).at(r, f) by {
                assert(r * 8 + f != position.rank as int * 8 + position.file as int);
            }
        }
    }

    /// Clear `position`, leaving the square empty.
    pub fn clear_piece(&mut self, position: &Position)
        requires
            old(self).wf(),
            position.wf(),
        ensures
            final(self).wf(),
            final(self).at(position.rank as int, position.file as int)
                == Option::<BoardSquare>::None,
            forall|r: int, f: int|
                on_board(r, f) && !(r == position.rank as int && f == position.file as int)
                    ==> final(self).at(r, f) == old(self).at(r, f),
    {
        let idx: usize = (position.rank as usize) * 8 + (position.file as usize);
        self.squares[idx] = Option::None;
        proof {
            assert forall|r: int, f: int|
                on_board(r, f) && !(r == position.rank as int && f == position.file as int)
                    implies self.at(r, f) == old(self).at(r, f) by {
                assert(r * 8 + f != position.rank as int * 8 + position.file as int);
            }
        }
    }
}

} // verus!
