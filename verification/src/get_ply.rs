pub mod knight;
pub mod pieces;
pub mod steps;
