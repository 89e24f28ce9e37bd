use vstd::prelude::*;

verus! {

/// The closed enumeration of piece kinds.
///
/// A piece kind is a pure data tag: its movement pattern is supplied
/// externally as a step table, so one generic generator serves all kinds.
#[derive(Clone, Copy, PartialEq, Eq, Structural, Debug)]
pub enum Piece {
    Pawn,
    Knight,
    Bishop,
    Rook,
    Queen,
    King,
}

} // verus!
