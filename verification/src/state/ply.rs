use vstd::prelude::*;

use crate::state::position::Position;

verus! {

/// One candidate half-move: an origin, a destination, and whether the move
/// captures the destination's occupant.
///
/// Two plies are equal when origin and destination match; the capture
/// classification takes no part in equality, though it is preserved for
/// downstream use.
#[derive(Clone, Copy, Debug)]
pub struct Ply {
    pub from: Position,
    pub to: Position,
    pub capture: bool,
}

impl Ply {
    /// A quiet move to an empty square.
    pub fn new_move(from: Position, to: Position) -> (p: Ply)
        ensures
            p.from == from,
            p.to == to,
            !p.capture,
    {
        Ply { from, to, capture: false }
    }

    /// A capture of the occupant at `to`.
    pub fn new_capture(from: Position, to: Position) -> (p: Ply)
        ensures
            p.from == from,
            p.to == to,
            p.capture,
    {
        Ply { from, to, capture: true }
    }

    pub fn is_capture(&self) -> (b: bool)
        ensures
            b == self.capture,
    {
        self.capture
    }
}

impl PartialEq for Ply {
    fn eq(&self, other: &Ply) -> (r: bool) {
        self.from == other.from && self.to == other.to
    }
}

impl vstd::std_specs::cmp::PartialEqSpecImpl for Ply {
    open spec fn obeys_eq_spec() -> bool {
        true
    }

    open spec fn eq_spec(&self, other: &Ply) -> bool {
        self.from == other.from && self.to == other.to
    }
}

} // verus!
