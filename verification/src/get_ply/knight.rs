use vstd::prelude::*;

use crate::get_ply::steps::{mover_of, nonzero_step, table_plies, StepPlyIterator};
use crate::state::board::Board;
use crate::state::ply::Ply;
use crate::state::position::Position;

verus! {

/// The eight knight offsets, in generation order.
pub open spec fn knight_steps_spec() -> Seq<(i8, i8)> {
    seq![
        (1i8, 2i8),
        (1i8, -2i8),
        (-1i8, 2i8),
        (-1i8, -2i8),
        (2i8, 1i8),
        (2i8, -1i8),
        (-2i8, 1i8),
        (-2i8, -1i8),
    ]
}

/// Every ply a knight at `from` generates, in step-table order.
pub open spec fn knight_plies(board: Board, from: Position) -> Seq<Ply> {
    table_plies(board, mover_of(board, from), from, knight_steps_spec(), false)
}

/// The knight step table as a vector.
pub fn knight_steps() -> (v: Vec<(i8, i8)>)
    ensures
        v@ == knight_steps_spec(),
        forall|i: int| 0 <= i < v@.len() ==> nonzero_step(#[trigger] v@[i]),
{
    let mut v: Vec<(i8, i8)> = Vec::new();
    v.push((1, 2));
    v.push((1, -2));
    v.push((-1, 2));
    v.push((-1, -2));
    v.push((2, 1));
    v.push((2, -1));
    v.push((-2, 1));
    v.push((-2, -1));
    proof {
        assert(v@ =~= knight_steps_spec());
    }
    v
}

/// Build the knight's generator: a non-repeating leap over the eight knight
/// offsets.
pub fn get_knight_ply(board: &Board, from: Position) -> (it: StepPlyIterator<'_>)
    requires
        board.wf(),
        from.wf(),
    ensures
        it.wf(),
        it.board == board,
        it.from == from,
        it.steps@ == knight_steps_spec(),
        !it.repeating,
        it.mover == mover_of(*board, from),
        it.remaining() == knight_plies(*board, from),
    {
    let steps = knight_steps();
    StepPlyIterator::new(steps, board, from, false)
}

} // verus!
