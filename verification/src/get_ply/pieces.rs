use vstd::prelude::*;

use crate::get_ply::knight::{get_knight_ply, knight_plies};
use crate::get_ply::steps::{mover_of, nonzero_step, table_plies, StepPlyIterator};
use crate::state::board::Board;
use crate::state::piece::Piece;
use crate::state::ply::Ply;
use crate::state::position::Position;

verus! {

/// The four rook directions, in generation order.
pub open spec fn rook_steps_spec() -> Seq<(i8, i8)> {
    seq![(1i8, 0i8), (-1i8, 0i8), (0i8, 1i8), (0i8, -1i8)]
}

/// The four bishop directions, in generation order.
pub open spec fn bishop_steps_spec() -> Seq<(i8, i8)> {
    seq![(1i8, 1i8), (1i8, -1i8), (-1i8, 1i8), (-1i8, -1i8)]
}

/// The eight queen (and king) directions: rook directions, then bishop
/// directions.
pub open spec fn royal_steps_spec() -> Seq<(i8, i8)> {
    rook_steps_spec() + bishop_steps_spec()
}

/// Every ply a rook at `from` generates, in direction order.
pub open spec fn rook_plies(board: Board, from: Position) -> Seq<Ply> {
    table_plies(board, mover_of(board, from), from, rook_steps_spec(), true)
}

/// Every ply a bishop at `from` generates, in direction order.
pub open spec fn bishop_plies(board: Board, from: Position) -> Seq<Ply> {
    table_plies(board, mover_of(board, from), from, bishop_steps_spec(), true)
}

/// Every ply a queen at `from` generates, in direction order.
pub open spec fn queen_plies(board: Board, from: Position) -> Seq<Ply> {
    table_plies(board, mover_of(board, from), from, royal_steps_spec(), true)
}

/// Every ply a king at `from` generates: one leap along each queen
/// direction.
pub open spec fn king_plies(board: Board, from: Position) -> Seq<Ply> {
    table_plies(board, mover_of(board, from), from, royal_steps_spec(), false)
}

/// The rook direction table as a vector.
pub fn rook_steps() -> (v: Vec<(i8, i8)>)
    ensures
        v@ == rook_steps_spec(),
        forall|i: int| 0 <= i < v@.len() ==> nonzero_step(#[trigger] v@[i]),
{
    let mut v: Vec<(i8, i8)> = Vec::new();
    v.push((1, 0));
    v.push((-1, 0));
    v.push((0, 1));
    v.push((0, -1));
    proof {
        assert(v@ =~= rook_steps_spec());
    }
    v
}

/// The bishop direction table as a vector.
pub fn bishop_steps() -> (v: Vec<(i8, i8)>)
    ensures
        v@ == bishop_steps_spec(),
        forall|i: int| 0 <= i < v@.len() ==> nonzero_step(#[trigger] v@[i]),
{
    let mut v: Vec<(i8, i8)> = Vec::new();
    v.push((1, 1));
    v.push((1, -1));
    v.push((-1, 1));
    v.push((-1, -1));
    proof {
        assert(v@ =~= bishop_steps_spec());
    }
    v
}

/// The queen and king direction table as a vector.
pub fn royal_steps() -> (v: Vec<(i8, i8)>)
    ensures
        v@ == royal_steps_spec(),
        forall|i: int| 0 <= i < v@.len() ==> nonzero_step(#[trigger] v@[i]),
{
    let mut v: Vec<(i8, i8)> = Vec::new();
    v.push((1, 0));
    v.push((-1, 0));
    v.push((0, 1));
    v.push((0, -1));
    v.push((1, 1));
    v.push((1, -1));
    v.push((-1, 1));
    v.push((-1, -1));
    proof {
        assert(v@ =~= royal_steps_spec());
    }
    v
}

/// Build the rook's generator: rays along the four rook directions.
pub fn get_rook_ply(board: &Board, from: Position) -> (it: StepPlyIterator<'_>)
    requires
        board.wf(),
        from.wf(),
    ensures
        it.wf(),
        it.remaining() == rook_plies(*board, from),
    {
    let steps = rook_steps();
    StepPlyIterator::new(steps, board, from, true)
}

/// Build the bishop's generator: rays along the four diagonals.
pub fn get_bishop_ply(board: &Board, from: Position) -> (it: StepPlyIterator<'_>)
    requires
        board.wf(),
        from.wf(),
    ensures
        it.wf(),
        it.remaining() == bishop_plies(*board, from),
    {
    let steps = bishop_steps();
    StepPlyIterator::new(steps, board, from, true)
}

/// Build the queen's generator: rays along all eight directions.
pub fn get_queen_ply(board: &Board, from: Position) -> (it: StepPlyIterator<'_>)
    requires
        board.wf(),
        from.wf(),
    ensures
        it.wf(),
        it.remaining() == queen_plies(*board, from),
    {
    let steps = royal_steps();
    StepPlyIterator::new(steps, board, from, true)
}

/// Build the king's generator: one leap along each of the eight directions.
pub fn get_king_ply(board: &Board, from: Position) -> (it: StepPlyIterator<'_>)
    requires
        board.wf(),
        from.wf(),
    ensures
        it.wf(),
        it.remaining() == king_plies(*board, from),
    {
    let steps = royal_steps();
    StepPlyIterator::new(steps, board, from, false)
}

/// Map a piece kind to its step table and repetition flag and build the one
/// generator that serves them all. The pawn's pattern (direction of travel,
/// double step, diagonal-only captures) is not step-table shaped, so it has
/// no generator here.
pub fn get_piece_ply<'a>(board: &'a Board, from: Position, piece: Piece) -> (r: Option<
    StepPlyIterator<'a>>)
    requires
        board.wf(),
        from.wf(),
    ensures
        piece == Piece::Pawn ==> r is None,
        piece == Piece::Knight ==> (r matches Option::Some(it) && it.wf() && it.remaining()
            == knight_plies(*board, from)),
        piece == Piece::Bishop ==> (r matches Option::Some(it) && it.wf() && it.remaining()
            == bishop_plies(*board, from)),
        piece == Piece::Rook ==> (r matches Option::Some(it) && it.wf() && it.remaining()
            == rook_plies(*board, from)),
        piece == Piece::Queen ==> (r matches Option::Some(it) && it.wf() && it.remaining()
            == queen_plies(*board, from)),
        piece == Piece::King ==> (r matches Option::Some(it) && it.wf() && it.remaining()
            == king_plies(*board, from)),
    {
    match piece {
        Piece::Pawn => Option::None,
        Piece::Knight => Option::Some(get_knight_ply(board, from)),
        Piece::Bishop => Option::Some(get_bishop_ply(board, from)),
        Piece::Rook => Option::Some(get_rook_ply(board, from)),
        Piece::Queen => Option::Some(get_queen_ply(board, from)),
        Piece::King => Option::Some(get_king_ply(board, from)),
    }
}

} // verus!
