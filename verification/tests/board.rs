use chess_core::state::board::Board;
use chess_core::state::board_square::BoardSquare;
use chess_core::state::mark::Mark;
use chess_core::state::piece::Piece;
use chess_core::state::ply::Ply;
use chess_core::state::position::Position;

#[test]
fn test_new_board_is_empty() {
    let board = Board::new();
    for rank in 0..8u8 {
        for file in 0..8u8 {
            assert!(board.get_piece(&Position::new(rank, file)).is_none());
        }
    }
}

#[test]
fn test_set_and_get_piece() {
    let mut board = Board::new();
    let pos = Position::new(3, 5);
    board.set_piece(&pos, BoardSquare::new(Mark::Black, Piece::Queen));
    let occupant = board.get_piece(&pos).unwrap();
    assert_eq!(occupant.mark, Mark::Black);
    assert_eq!(occupant.piece, Piece::Queen);
    // Other squares stay empty.
    assert!(board.get_piece(&Position::new(5, 3)).is_none());
}

#[test]
fn test_set_piece_replaces_occupant() {
    let mut board = Board::new();
    let pos = Position::new(0, 7);
    board.set_piece(&pos, BoardSquare::new(Mark::White, Piece::Pawn));
    board.set_piece(&pos, BoardSquare::new(Mark::Black, Piece::Rook));
    let occupant = board.get_piece(&pos).unwrap();
    assert_eq!(occupant.mark, Mark::Black);
    assert_eq!(occupant.piece, Piece::Rook);
}

#[test]
fn test_clear_piece() {
    let mut board = Board::new();
    let pos = Position::new(7, 0);
    board.set_piece(&pos, BoardSquare::new(Mark::White, Piece::King));
    board.clear_piece(&pos);
    assert!(board.get_piece(&pos).is_none());
}

#[test]
fn test_position_offset() {
    let origin = Position::new(0, 0);
    assert_eq!(origin.offset((0, 1), 1), Some(Position::new(0, 1)));
    assert_eq!(origin.offset((1, 1), 7), Some(Position::new(7, 7)));
    assert_eq!(origin.offset((-1, 0), 1), None);
    assert_eq!(origin.offset((0, 1), 8), None);
    assert_eq!(Position::new(4, 4).offset((2, -1), 1), Some(Position::new(6, 3)));
}

#[test]
fn test_ply_equality_ignores_classification() {
    let a = Position::new(4, 4);
    let b = Position::new(6, 5);
    let c = Position::new(2, 5);
    assert_eq!(Ply::new_move(a, b), Ply::new_capture(a, b));
    assert_ne!(Ply::new_move(a, b), Ply::new_move(a, c));
    assert_ne!(Ply::new_move(b, c), Ply::new_move(a, c));
    assert!(Ply::new_capture(a, b).is_capture());
    assert!(!Ply::new_move(a, b).is_capture());
}
