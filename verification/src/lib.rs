//! Pseudo-legal move generation for a chess engine.
//!
//! Given a board position and the square of a piece, the library produces
//! every square that piece can reach under its raw movement pattern,
//! respecting board boundaries and occupancy. Friendly-occupied squares are
//! filtered by the generator itself; an enemy occupant yields a capture and
//! ends travel in that direction.

pub mod get_ply;
pub mod state;
