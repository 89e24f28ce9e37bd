use chess_core::get_ply::pieces::{
    get_bishop_ply, get_king_ply, get_piece_ply, get_queen_ply, get_rook_ply,
};
use chess_core::get_ply::steps::StepPlyIterator;
use chess_core::state::board::Board;
use chess_core::state::board_square::BoardSquare;
use chess_core::state::mark::Mark;
use chess_core::state::piece::Piece;
use chess_core::state::ply::Ply;
use chess_core::state::position::Position;

#[test]
fn test_single_ray_capture_then_stop() {
    // A rook with an enemy piece two squares away and nothing in between
    // yields the quiet move to the adjacent square, the capture on the
    // enemy square, and nothing beyond it.
    let mut board = Board::new();
    board.set_piece(
        &Position::new(0, 0),
        BoardSquare::new(Mark::White, Piece::Rook),
    );
    board.set_piece(
        &Position::new(0, 2),
        BoardSquare::new(Mark::Black, Piece::Pawn),
    );
    let from = Position::new(0, 0);
    let mut iter = StepPlyIterator::new(vec![(0, 1)], &board, from, true);
    let first = iter.next().unwrap();
    assert_eq!(first, Ply::new_move(from, Position::new(0, 1)));
    assert!(!first.is_capture());
    let second = iter.next().unwrap();
    assert_eq!(second, Ply::new_move(from, Position::new(0, 2)));
    assert!(second.is_capture());
    assert_eq!(iter.next(), None);
    assert_eq!(iter.next(), None);
}

#[test]
fn test_rook_full_table_capture_then_stop() {
    let mut board = Board::new();
    board.set_piece(
        &Position::new(0, 0),
        BoardSquare::new(Mark::White, Piece::Rook),
    );
    board.set_piece(
        &Position::new(0, 2),
        BoardSquare::new(Mark::Black, Piece::Pawn),
    );
    let from = Position::new(0, 0);
    let mut iter = get_rook_ply(&board, from);
    // First direction (1, 0): seven quiet moves down the file.
    for r in 1..8u8 {
        assert_eq!(iter.next(), Some(Ply::new_move(from, Position::new(r, 0))));
    }
    // (-1, 0) leaves the board at once. (0, 1): one quiet move, then the
    // capture ends the ray.
    let quiet = iter.next().unwrap();
    assert_eq!(quiet, Ply::new_move(from, Position::new(0, 1)));
    assert!(!quiet.is_capture());
    let capture = iter.next().unwrap();
    assert_eq!(capture, Ply::new_move(from, Position::new(0, 2)));
    assert!(capture.is_capture());
    // (0, -1) leaves the board at once.
    assert_eq!(iter.next(), None);
}

#[test]
fn test_ray_cardinality_bound() {
    // A single ray on an empty board yields at most board size minus one
    // elements: exactly seven from a corner.
    let board = Board::new();
    let from = Position::new(0, 0);
    let mut iter = StepPlyIterator::new(vec![(0, 1)], &board, from, true);
    for f in 1..8u8 {
        assert_eq!(iter.next(), Some(Ply::new_move(from, Position::new(0, f))));
    }
    assert_eq!(iter.next(), None);
}

#[test]
fn test_ray_friendly_blocks_without_ply() {
    // A friendly piece on the adjacent square stops the ray before any ply.
    let mut board = Board::new();
    board.set_piece(
        &Position::new(0, 0),
        BoardSquare::new(Mark::White, Piece::Rook),
    );
    board.set_piece(
        &Position::new(0, 1),
        BoardSquare::new(Mark::White, Piece::Pawn),
    );
    let from = Position::new(0, 0);
    let mut iter = StepPlyIterator::new(vec![(0, 1)], &board, from, true);
    assert_eq!(iter.next(), None);
}

#[test]
fn test_king_corner() {
    let mut board = Board::new();
    board.set_piece(
        &Position::new(0, 0),
        BoardSquare::new(Mark::White, Piece::King),
    );
    let from = Position::new(0, 0);
    let mut iter = get_king_ply(&board, from);
    assert_eq!(iter.next(), Some(Ply::new_move(from, Position::new(1, 0))));
    assert_eq!(iter.next(), Some(Ply::new_move(from, Position::new(0, 1))));
    assert_eq!(iter.next(), Some(Ply::new_move(from, Position::new(1, 1))));
    assert_eq!(iter.next(), None);
}

#[test]
fn test_queen_open_corner_count() {
    // From an empty corner the queen sees three full rays of seven squares.
    let mut board = Board::new();
    board.set_piece(
        &Position::new(0, 0),
        BoardSquare::new(Mark::White, Piece::Queen),
    );
    let mut iter = get_queen_ply(&board, Position::new(0, 0));
    let mut count: usize = 0;
    while let Some(p) = iter.next() {
        assert!(!p.is_capture());
        count += 1;
    }
    assert_eq!(count, 21);
}

#[test]
fn test_bishop_capture_then_stop() {
    let mut board = Board::new();
    board.set_piece(
        &Position::new(7, 7),
        BoardSquare::new(Mark::Black, Piece::Bishop),
    );
    board.set_piece(
        &Position::new(5, 5),
        BoardSquare::new(Mark::White, Piece::Pawn),
    );
    let from = Position::new(7, 7);
    let mut iter = get_bishop_ply(&board, from);
    let quiet = iter.next().unwrap();
    assert_eq!(quiet, Ply::new_move(from, Position::new(6, 6)));
    assert!(!quiet.is_capture());
    let capture = iter.next().unwrap();
    assert_eq!(capture, Ply::new_move(from, Position::new(5, 5)));
    assert!(capture.is_capture());
    assert_eq!(iter.next(), None);
}

#[test]
fn test_piece_table_mapping() {
    let mut board = Board::new();
    board.set_piece(
        &Position::new(4, 4),
        BoardSquare::new(Mark::White, Piece::Knight),
    );
    let from = Position::new(4, 4);
    assert!(get_piece_ply(&board, from, Piece::Pawn).is_none());
    let mut via_map = get_piece_ply(&board, from, Piece::Knight).unwrap();
    assert_eq!(
        via_map.next(),
        Some(Ply::new_move(from, Position::new(5, 6)))
    );
    let mut rook = get_piece_ply(&board, from, Piece::Rook).unwrap();
    assert_eq!(rook.next(), Some(Ply::new_move(from, Position::new(5, 4))));
    let mut king = get_piece_ply(&board, from, Piece::King).unwrap();
    assert_eq!(king.next(), Some(Ply::new_move(from, Position::new(5, 4))));
    let mut queen = get_piece_ply(&board, from, Piece::Queen).unwrap();
    assert_eq!(queen.next(), Some(Ply::new_move(from, Position::new(5, 4))));
    let mut bishop = get_piece_ply(&board, from, Piece::Bishop).unwrap();
    assert_eq!(bishop.next(), Some(Ply::new_move(from, Position::new(5, 5))));
}
