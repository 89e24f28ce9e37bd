pub mod board;
pub mod board_square;
pub mod mark;
pub mod piece;
pub mod ply;
pub mod position;
