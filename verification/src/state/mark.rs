use vstd::prelude::*;

verus! {

/// The side that owns a piece: one of exactly two values.
///
/// An occupant whose mark equals the mover's blocks a square; the opposite
/// mark permits a capture and ends further travel along that direction.
#[derive(Clone, Copy, PartialEq, Eq, Structural, Debug)]
pub enum Mark {
    White,
    Black,
}

} // verus!
