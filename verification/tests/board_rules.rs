//! Square geometry, notation parsing and board-level rules.

use chess_engine::board::Board;
use chess_engine::moves::{Extra, MoveFailureReason, MoveParsingError, NewMove};
use chess_engine::pieces::{Piece, Type};
use chess_engine::square::{Color, Square};

fn sq(file: u8, rank: u8) -> Square {
    Square::new(file, rank)
}

#[test]
fn square_validity_and_index() {
    assert!(sq(1, 1).is_valid());
    assert!(sq(8, 8).is_valid());
    assert!(!sq(0, 4).is_valid());
    assert!(!sq(9, 4).is_valid());
    assert!(!sq(4, 0).is_valid());
    assert!(!sq(4, 9).is_valid());

    assert_eq!(sq(1, 1).get_unique_index(), 0);
    assert_eq!(sq(8, 1).get_unique_index(), 7);
    assert_eq!(sq(1, 2).get_unique_index(), 8);
    assert_eq!(sq(8, 8).get_unique_index(), 63);

    assert_eq!(Square::new_if_valid(5, 2), Some(sq(5, 2)));
    assert_eq!(Square::new_if_valid(0, 2), None);
}

#[test]
fn square_letters_and_shade() {
    assert_eq!(sq(1, 1).get_file_as_letter(), 'A');
    assert_eq!(sq(5, 2).get_file_as_letter(), 'E');
    assert_eq!(sq(8, 8).get_file_as_letter(), 'H');

    // a1 is dark, b1 is light, h1 is light.
    assert!(!sq(1, 1).is_light());
    assert!(sq(2, 1).is_light());
    assert!(sq(8, 1).is_light());
}

#[test]
fn square_relative_steps() {
    let e2 = sq(5, 2);
    assert_eq!(e2.get_relative(0, 1), sq(5, 3));
    assert_eq!(e2.get_relative(-1, 2), sq(4, 4));
    assert!(!sq(8, 8).get_relative(1, 0).is_valid());
    assert!(!sq(1, 1).get_relative(0, -1).is_valid());
}

#[test]
fn square_rays_until_edge() {
    let a1 = sq(1, 1);
    let ray = a1.get_relatives_until_invalid(1, 1);
    assert_eq!(
        ray,
        vec![sq(2, 2), sq(3, 3), sq(4, 4), sq(5, 5), sq(6, 6), sq(7, 7), sq(8, 8)]
    );

    let h4 = sq(8, 4);
    assert_eq!(h4.get_relatives_until_invalid(1, 0), Vec::<Square>::new());
    assert_eq!(h4.get_relatives_until_invalid(-1, 0).len(), 7);
}

#[test]
fn path_between_squares() {
    let a1 = sq(1, 1);
    assert_eq!(a1.find_path_to(&sq(1, 4)), Some(vec![sq(1, 2), sq(1, 3)]));
    assert_eq!(a1.find_path_to(&sq(3, 3)), Some(vec![sq(2, 2)]));
    assert_eq!(a1.find_path_to(&sq(2, 1)), Some(Vec::new()));
    assert_eq!(a1.find_path_to(&a1), Some(Vec::new()));
    assert_eq!(a1.find_path_to(&sq(2, 3)), None);
}

#[test]
fn parse_squares() {
    assert_eq!(Square::parse(b"E2"), Ok(sq(5, 2)));
    assert_eq!(Square::parse(b"e2"), Ok(sq(5, 2)));
    assert_eq!(Square::parse(b"A1"), Ok(sq(1, 1)));
    assert_eq!(Square::parse(b"h8"), Ok(sq(8, 8)));
    assert_eq!(Square::parse(b"E"), Err(MoveParsingError::IncorrectSquareFormat));
    assert_eq!(Square::parse(b"E22"), Err(MoveParsingError::IncorrectSquareFormat));
    assert_eq!(Square::parse(b"I1"), Err(MoveParsingError::InvalidSquare));
    assert_eq!(Square::parse(b"E9"), Err(MoveParsingError::InvalidSquare));
    assert_eq!(Square::parse(b"E0"), Err(MoveParsingError::InvalidSquare));
}

#[test]
fn parse_moves() {
    let m = NewMove::parse(b"E2E4").unwrap();
    assert_eq!(m.from, sq(5, 2));
    assert_eq!(m.to, sq(5, 4));
    assert_eq!(m.extra, Extra::Nothing);

    assert_eq!(NewMove::parse(b"e7e5").unwrap().from, sq(5, 7));
    assert_eq!(NewMove::parse(b"E2E"), Err(MoveParsingError::IncorrectMoveFormat));
    assert_eq!(NewMove::parse(b"E2E44"), Err(MoveParsingError::IncorrectMoveFormat));
    assert_eq!(NewMove::parse(b"E2I4"), Err(MoveParsingError::InvalidSquare));
}

fn standard_board() -> Board {
    let mut board = Board::new();
    board.setup_default_board();
    board
}

#[test]
fn standard_setup_placement() {
    let board = standard_board();

    let e1 = board.get_piece(sq(5, 1)).unwrap();
    assert_eq!(e1.piece_type, Type::King);
    assert_eq!(e1.color, Color::White);

    let d8 = board.get_piece(sq(4, 8)).unwrap();
    assert_eq!(d8.piece_type, Type::Queen);
    assert_eq!(d8.color, Color::Black);

    for file in 1..=8 {
        assert_eq!(board.get_piece(sq(file, 2)).unwrap().piece_type, Type::Pawn);
        assert_eq!(board.get_piece(sq(file, 7)).unwrap().piece_type, Type::Pawn);
        assert!(board.get_piece(sq(file, 4)).is_none());
    }

    assert!(board.state.white_castling_rights.short_castle);
    assert!(board.state.black_castling_rights.long_castle);
    assert_eq!(board.state.en_passant_square, None);
}

#[test]
fn material_and_counts() {
    let board = standard_board();

    assert_eq!(board.get_material_count(Color::White), 39);
    assert_eq!(board.get_material_count(Color::Black), 39);

    let counts = board.get_pieces_count_by_type(Color::White);
    assert_eq!(counts.king, 1);
    assert_eq!(counts.queen, 1);
    assert_eq!(counts.rook, 2);
    assert_eq!(counts.bishop, 2);
    assert_eq!(counts.knight, 2);
    assert_eq!(counts.pawn, 8);
}

#[test]
fn attack_detection_from_start() {
    let board = standard_board();

    // e3 is covered by the d2 and f2 pawns; e5 is reached by nothing
    // white.
    assert!(board.is_attacked(sq(5, 3), Some(Color::White)));
    assert!(!board.is_attacked(sq(5, 3), Some(Color::Black)));
    assert!(!board.is_attacked(sq(5, 5), Some(Color::White)));
    assert!(board.is_attacked(sq(5, 3), None));

    assert!(!board.is_in_check(Color::White));
    assert!(!board.is_in_check(Color::Black));
}

#[test]
fn check_detection_by_rook() {
    let mut board = Board::new();
    board.set_piece(Piece::new(sq(5, 1), Color::White, Type::King));
    board.set_piece(Piece::new(sq(5, 8), Color::Black, Type::Rook));
    board.set_piece(Piece::new(sq(8, 8), Color::Black, Type::King));

    assert!(board.is_in_check(Color::White));
    assert!(!board.is_in_check(Color::Black));

    // A blocker on the file lifts the check.
    board.set_piece(Piece::new(sq(5, 4), Color::White, Type::Bishop));
    assert!(!board.is_in_check(Color::White));
}

#[test]
fn attempt_move_failures_leave_board_alone() {
    let mut board = standard_board();

    // Empty origin.
    let r = board.make_move_if_valid(NewMove { from: sq(5, 5), to: sq(5, 6), extra: Extra::Nothing });
    assert_eq!(r, Err(MoveFailureReason::NoPiece));

    // A pawn cannot jump three ranks.
    let r = board.make_move_if_valid(NewMove { from: sq(5, 2), to: sq(5, 5), extra: Extra::Nothing });
    assert_eq!(r, Err(MoveFailureReason::MoveInvalid));

    // A rook cannot land on its own pawn.
    let r = board.make_move_if_valid(NewMove { from: sq(1, 1), to: sq(1, 2), extra: Extra::Nothing });
    assert_eq!(r, Err(MoveFailureReason::CannotCaptureOwnPiece));

    // Nothing moved and nothing was recorded.
    let fresh = standard_board();
    assert!(board.state.state_equals(&fresh.state));
    assert!(board.last_move.is_none());
    assert!(board.highlighted_squares.is_empty());
}

#[test]
fn pawn_moves_and_blocks() {
    let mut board = standard_board();

    // Single and double advances are valid from the home rank.
    assert!(board
        .make_move_if_valid(NewMove { from: sq(5, 2), to: sq(5, 4), extra: Extra::Nothing })
        .is_ok());
    let record = board.last_move.unwrap();
    assert_eq!(record.piece_type, Type::Pawn);
    assert!(!record.capture);
    // The skipped square becomes the en-passant target.
    assert_eq!(board.state.en_passant_square, Some(sq(5, 3)));

    // A pawn cannot capture straight ahead.
    let mut blocked = standard_board();
    blocked.set_piece(Piece::new(sq(5, 3), Color::Black, Type::Pawn));
    let r = blocked.make_move_if_valid(NewMove { from: sq(5, 2), to: sq(5, 3), extra: Extra::Nothing });
    assert_eq!(r, Err(MoveFailureReason::MoveInvalid));

    // But it captures diagonally.
    let mut capture = standard_board();
    capture.set_piece(Piece::new(sq(4, 3), Color::Black, Type::Knight));
    assert!(capture
        .make_move_if_valid(NewMove { from: sq(5, 2), to: sq(4, 3), extra: Extra::Nothing })
        .is_ok());
    assert!(capture.last_move.unwrap().capture);
}

#[test]
fn sliding_pieces_need_clear_paths() {
    let mut board = standard_board();

    // The queen cannot slide through her own pawn.
    let r = board.make_move_if_valid(NewMove { from: sq(4, 1), to: sq(4, 5), extra: Extra::Nothing });
    assert_eq!(r, Err(MoveFailureReason::MoveInvalid));

    // Knights jump over everything.
    assert!(board
        .make_move_if_valid(NewMove { from: sq(2, 1), to: sq(3, 3), extra: Extra::Nothing })
        .is_ok());
}

#[test]
fn legal_move_enumeration_from_start() {
    let board = standard_board();

    let all = board.get_valid_moves_for(Color::White);
    assert_eq!(all.len(), 20);

    let pawn = board.get_piece(sq(5, 2)).unwrap();
    let pawn_moves = board.get_valid_moves_for_piece(pawn);
    assert_eq!(pawn_moves.len(), 2);

    let knight = board.get_piece(sq(7, 1)).unwrap();
    let knight_moves = board.get_valid_moves_for_piece(knight);
    assert_eq!(knight_moves.len(), 2);

    let king = board.get_piece(sq(5, 1)).unwrap();
    assert_eq!(board.get_valid_moves_for_piece(king).len(), 0);
}

#[test]
fn position_hash_is_a_function_of_the_position() {
    let a = standard_board();
    let b = standard_board();
    assert_eq!(a.state.get_hash(), b.state.get_hash());

    let mut moved = standard_board();
    moved
        .make_move_if_valid(NewMove { from: sq(5, 2), to: sq(5, 4), extra: Extra::Nothing })
        .unwrap();
    assert_ne!(a.state.get_hash(), moved.state.get_hash());
    assert!(!a.state.state_equals(&moved.state));
}

#[test]
fn promotion_requires_a_choice() {
    let mut board = Board::new();
    board.set_piece(Piece::new(sq(1, 7), Color::White, Type::Pawn));
    board.set_piece(Piece::new(sq(5, 1), Color::White, Type::King));
    board.set_piece(Piece::new(sq(5, 8), Color::Black, Type::King));

    let r = board.make_move_if_valid(NewMove { from: sq(1, 7), to: sq(1, 8), extra: Extra::Nothing });
    assert_eq!(r, Err(MoveFailureReason::MoveInvalid));

    let r = board.make_move_if_valid(NewMove {
        from: sq(1, 7),
        to: sq(1, 8),
        extra: Extra::Promotion(Type::Knight),
    });
    assert!(r.is_ok());
    let promoted = board.get_piece(sq(1, 8)).unwrap();
    assert_eq!(promoted.piece_type, Type::Knight);
    assert_eq!(promoted.color, Color::White);
}

#[test]
fn probe_promotion_defaults_to_queen() {
    // The relaxed probe is exempt from the promotion-choice requirement
    // and promotes to a queen by default.
    let mut board = Board::new();
    board.set_piece(Piece::new(sq(1, 7), Color::White, Type::Pawn));
    board.set_piece(Piece::new(sq(5, 1), Color::White, Type::King));
    board.set_piece(Piece::new(sq(5, 8), Color::Black, Type::King));

    let r = board.make_move_if_valid(NewMove {
        from: sq(1, 7),
        to: sq(1, 8),
        extra: Extra::MoveCheck,
    });
    assert!(r.is_ok());
    assert_eq!(board.get_piece(sq(1, 8)).unwrap().piece_type, Type::Queen);
}

#[test]
fn corner_knight_candidates() {
    let knight = Piece::new(sq(1, 1), Color::White, Type::Knight);
    let mut candidates = knight.valid_moves.clone();
    candidates.sort_by_key(|s| s.get_unique_index());
    assert_eq!(candidates, vec![sq(3, 2), sq(2, 3)]);
}

#[test]
fn rook_move_forfeits_one_castling_right() {
    let mut board = Board::new();
    board.set_piece(Piece::new(sq(5, 1), Color::White, Type::King));
    board.set_piece(Piece::new(sq(8, 1), Color::White, Type::Rook));
    board.set_piece(Piece::new(sq(1, 1), Color::White, Type::Rook));
    board.set_piece(Piece::new(sq(5, 8), Color::Black, Type::King));

    board
        .make_move_if_valid(NewMove { from: sq(8, 1), to: sq(8, 4), extra: Extra::Nothing })
        .unwrap();

    assert!(!board.state.white_castling_rights.short_castle);
    assert!(board.state.white_castling_rights.long_castle);
}
