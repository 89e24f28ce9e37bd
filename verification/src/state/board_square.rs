use vstd::prelude::*;

use crate::state::mark::Mark;
use crate::state::piece::Piece;

verus! {

/// The occupant of one square: a piece of some kind owned by some side.
///
/// A square with no `BoardSquare` is empty; the board stores an optional
/// `BoardSquare` per square.
#[derive(Clone, Copy, PartialEq, Eq, Structural, Debug)]
pub struct BoardSquare {
    pub mark: Mark,
    pub piece: Piece,
}

impl BoardSquare {
    pub fn new(mark: Mark, piece: Piece) -> (s: BoardSquare)
        ensures
            s.mark == mark,
            s.piece == piece,
    {
        BoardSquare { mark, piece }
    }
}

} // verus!
