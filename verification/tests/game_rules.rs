//! Game-level scenarios: turn order, terminal conditions, offers and
//! takeback.

use chess_engine::board::Board;
use chess_engine::game::{Game, GameResult};
use chess_engine::moves::{Extra, MoveFailureReason, NewMove};
use chess_engine::pieces::{Piece, Type};
use chess_engine::square::{Color, Square};

fn sq(file: u8, rank: u8) -> Square {
    Square::new(file, rank)
}

fn mv(s: &str) -> NewMove {
    NewMove::parse(s.as_bytes()).unwrap()
}

fn play(game: &mut Game, moves: &[&str]) {
    for m in moves {
        let r = game.make_move(mv(m));
        assert!(r.is_ok(), "move {} failed: {:?}", m, r.err());
    }
}

/// A bare-bones game around a hand-built position.
fn custom_game(pieces: Vec<Piece>, turn: Color) -> Game {
    let mut game = Game::new();
    game.state.board.clear_board();
    for piece in pieces {
        game.state.board.set_piece(piece);
    }
    game.state.current_turn = turn;
    game
}

#[test]
fn opening_move_scenario() {
    let mut game = Game::new();
    assert_eq!(game.state.current_turn, Color::White);

    let record = game.make_move(mv("E2E4")).unwrap();

    assert_eq!(record.piece_color, Color::White);
    assert_eq!(record.piece_type, Type::Pawn);
    assert_eq!(record.from, sq(5, 2));
    assert_eq!(record.to, sq(5, 4));
    assert!(!record.capture);

    assert_eq!(game.state.current_turn, Color::Black);
    assert_eq!(game.state.half_move_clock, 0);
    assert_eq!(game.state.board.highlighted_squares, vec![sq(5, 2), sq(5, 4)]);
    assert!(game.result.is_none());
    assert_eq!(game.state_history.len(), 1);
}

#[test]
fn turn_order_is_enforced() {
    let mut game = Game::new();

    assert_eq!(game.make_move(mv("E7E5")), Err(MoveFailureReason::NotYourPiece));
    assert_eq!(game.make_move(mv("E4E5")), Err(MoveFailureReason::NoPiece));

    game.make_move(mv("E2E4")).unwrap();
    assert_eq!(game.make_move(mv("D2D4")), Err(MoveFailureReason::NotYourPiece));
}

#[test]
fn rejected_moves_do_not_mutate() {
    let mut game = Game::new();
    let fresh = Game::new();

    assert_eq!(game.make_move(mv("E2E5")), Err(MoveFailureReason::MoveInvalid));
    assert_eq!(game.make_move(mv("A1A2")), Err(MoveFailureReason::CannotCaptureOwnPiece));

    assert!(game.state.board.state.state_equals(&fresh.state.board.state));
    assert_eq!(game.state.current_turn, Color::White);
    assert_eq!(game.state_history.len(), 0);
    assert!(game.state.board.last_move.is_none());
}

#[test]
fn moving_into_check_is_rejected() {
    // The white rook on e2 is pinned to its king by the black rook.
    let game_pieces = vec![
        Piece::new(sq(5, 1), Color::White, Type::King),
        Piece::new(sq(5, 2), Color::White, Type::Rook),
        Piece::new(sq(5, 8), Color::Black, Type::Rook),
        Piece::new(sq(8, 8), Color::Black, Type::King),
    ];
    let mut game = custom_game(game_pieces, Color::White);

    assert_eq!(game.make_move(mv("E2A2")), Err(MoveFailureReason::InCheckAfterTurn));
    // Along the pin the rook may still move.
    assert!(game.make_move(mv("E2E5")).is_ok());
}

#[test]
fn en_passant_capture() {
    let mut game = Game::new();

    play(&mut game, &["E2E4", "A7A6", "E4E5", "D7D5"]);

    // Black's double step set the target square behind the pawn.
    assert_eq!(game.state.board.state.en_passant_square, Some(sq(4, 6)));

    let record = game.make_move(mv("E5D6")).unwrap();

    assert!(record.capture);
    assert_eq!(record.piece_type, Type::Pawn);

    // The capturing pawn stands on d6 and the bypassed pawn is gone.
    let d6 = game.state.board.get_piece(sq(4, 6)).unwrap();
    assert_eq!(d6.color, Color::White);
    assert_eq!(d6.piece_type, Type::Pawn);
    assert!(game.state.board.get_piece(sq(4, 5)).is_none());

    // A pawn move keeps the half-move clock at zero.
    assert_eq!(game.state.half_move_clock, 0);
}

#[test]
fn en_passant_expires_after_a_pawn_reply() {
    let mut game = Game::new();

    play(&mut game, &["E2E4", "D7D5", "E4E5", "D5D4"]);

    // The old target is gone: d5-d4 was no double step onto a target.
    assert_eq!(game.state.board.state.en_passant_square, None);
}

#[test]
fn short_castle_moves_king_and_rook_and_clears_rights() {
    let pieces = vec![
        Piece::new(sq(5, 1), Color::White, Type::King),
        Piece::new(sq(8, 1), Color::White, Type::Rook),
        Piece::new(sq(5, 8), Color::Black, Type::King),
    ];
    let mut game = custom_game(pieces, Color::White);

    assert!(game.make_move(mv("E1G1")).is_ok());

    assert_eq!(game.state.board.get_piece(sq(7, 1)).unwrap().piece_type, Type::King);
    assert_eq!(game.state.board.get_piece(sq(6, 1)).unwrap().piece_type, Type::Rook);
    assert!(game.state.board.get_piece(sq(5, 1)).is_none());
    assert!(game.state.board.get_piece(sq(8, 1)).is_none());

    assert!(!game.state.board.state.white_castling_rights.short_castle);
    assert!(!game.state.board.state.white_castling_rights.long_castle);
}

#[test]
fn short_castle_rejected_while_passage_is_attacked() {
    // A black rook covers f1.
    let pieces = vec![
        Piece::new(sq(5, 1), Color::White, Type::King),
        Piece::new(sq(8, 1), Color::White, Type::Rook),
        Piece::new(sq(6, 8), Color::Black, Type::Rook),
        Piece::new(sq(8, 8), Color::Black, Type::King),
    ];
    let mut game = custom_game(pieces, Color::White);

    assert_eq!(game.make_move(mv("E1G1")), Err(MoveFailureReason::MoveInvalid));

    // The same holds with g1 covered instead.
    let pieces = vec![
        Piece::new(sq(5, 1), Color::White, Type::King),
        Piece::new(sq(8, 1), Color::White, Type::Rook),
        Piece::new(sq(7, 8), Color::Black, Type::Rook),
        Piece::new(sq(1, 8), Color::Black, Type::King),
    ];
    let mut game = custom_game(pieces, Color::White);
    assert_eq!(game.make_move(mv("E1G1")), Err(MoveFailureReason::MoveInvalid));
}

#[test]
fn short_castle_rejected_without_the_right_or_through_pieces() {
    let pieces = vec![
        Piece::new(sq(5, 1), Color::White, Type::King),
        Piece::new(sq(8, 1), Color::White, Type::Rook),
        Piece::new(sq(7, 1), Color::White, Type::Knight),
        Piece::new(sq(5, 8), Color::Black, Type::King),
    ];
    let mut game = custom_game(pieces, Color::White);

    // The knight stands between king and rook.
    assert_eq!(game.make_move(mv("E1G1")), Err(MoveFailureReason::MoveInvalid));

    let pieces = vec![
        Piece::new(sq(5, 1), Color::White, Type::King),
        Piece::new(sq(8, 1), Color::White, Type::Rook),
        Piece::new(sq(5, 8), Color::Black, Type::King),
    ];
    let mut game = custom_game(pieces, Color::White);
    game.state.board.state.white_castling_rights.short_castle = false;

    assert_eq!(game.make_move(mv("E1G1")), Err(MoveFailureReason::MoveInvalid));
}

#[test]
fn long_castle_moves_rook_to_d_file() {
    let pieces = vec![
        Piece::new(sq(5, 1), Color::White, Type::King),
        Piece::new(sq(1, 1), Color::White, Type::Rook),
        Piece::new(sq(5, 8), Color::Black, Type::King),
    ];
    let mut game = custom_game(pieces, Color::White);

    assert!(game.make_move(mv("E1C1")).is_ok());
    assert_eq!(game.state.board.get_piece(sq(3, 1)).unwrap().piece_type, Type::King);
    assert_eq!(game.state.board.get_piece(sq(4, 1)).unwrap().piece_type, Type::Rook);
}

#[test]
fn fools_mate_is_checkmate() {
    let mut game = Game::new();

    play(&mut game, &["F2F3", "E7E5", "G2G4"]);
    assert!(game.result.is_none());

    let record = game.make_move(mv("D8H4")).unwrap();
    assert_eq!(record.piece_type, Type::Queen);

    assert_eq!(game.result, Some(GameResult::CheckMate(Color::White)));
    assert_eq!(game.result.unwrap().get_winner(), Some(Color::Black));
    assert_eq!(game.result.unwrap().pretty_message(), "White is checkmated.");

    // The game is frozen afterwards.
    assert_eq!(game.make_move(mv("E2E4")), Err(MoveFailureReason::GameEnded));
    assert_eq!(game.resign(Color::White), Err(MoveFailureReason::GameEnded));
    assert_eq!(game.takeback_move(), Err(MoveFailureReason::GameEnded));
}

#[test]
fn queen_cornering_is_stalemate() {
    let pieces = vec![
        Piece::new(sq(7, 6), Color::White, Type::King),
        Piece::new(sq(5, 7), Color::White, Type::Queen),
        Piece::new(sq(8, 8), Color::Black, Type::King),
    ];
    let mut game = custom_game(pieces, Color::White);

    assert!(game.make_move(mv("E7F7")).is_ok());
    assert_eq!(game.result, Some(GameResult::Stalemated));
    assert_eq!(game.result.unwrap().get_winner(), None);
}

#[test]
fn insufficient_material_checks() {
    // King and bishop against a bare king cannot force mate.
    let kb = custom_game(
        vec![
            Piece::new(sq(5, 1), Color::White, Type::King),
            Piece::new(sq(3, 1), Color::White, Type::Bishop),
            Piece::new(sq(5, 8), Color::Black, Type::King),
        ],
        Color::White,
    );
    assert!(kb.check_for_insufficient_material());

    // King and rook against a bare king can.
    let kr = custom_game(
        vec![
            Piece::new(sq(5, 1), Color::White, Type::King),
            Piece::new(sq(1, 1), Color::White, Type::Rook),
            Piece::new(sq(5, 8), Color::Black, Type::King),
        ],
        Color::White,
    );
    assert!(!kr.check_for_insufficient_material());
}

#[test]
fn capture_into_insufficient_material_ends_the_game() {
    // The white king captures the last black pawn, leaving bishop against
    // bare king.
    let pieces = vec![
        Piece::new(sq(5, 1), Color::White, Type::King),
        Piece::new(sq(3, 1), Color::White, Type::Bishop),
        Piece::new(sq(5, 2), Color::Black, Type::Pawn),
        Piece::new(sq(5, 8), Color::Black, Type::King),
    ];
    let mut game = custom_game(pieces, Color::White);

    let record = game.make_move(mv("E1E2")).unwrap();
    assert!(record.capture);
    assert_eq!(game.result, Some(GameResult::InsufficientMaterial));
}

#[test]
fn threefold_repetition_on_the_third_occurrence_not_earlier() {
    let mut game = Game::new();

    // Knight shuffles recreate the starting position.
    play(&mut game, &["G1F3", "G8F6", "F3G1", "F6G8"]);
    assert!(game.result.is_none());

    play(&mut game, &["G1F3", "G8F6", "F3G1"]);
    assert!(game.result.is_none());

    play(&mut game, &["F6G8"]);
    assert_eq!(game.result, Some(GameResult::ThreefoldRepetition));
}

#[test]
fn fifty_move_rule_triggers_and_resets() {
    let pieces = vec![
        Piece::new(sq(5, 1), Color::White, Type::King),
        Piece::new(sq(1, 1), Color::White, Type::Rook),
        Piece::new(sq(5, 8), Color::Black, Type::King),
        Piece::new(sq(1, 8), Color::Black, Type::Rook),
        Piece::new(sq(2, 7), Color::Black, Type::Pawn),
    ];

    // One quiet rook move away from the fifty-move mark.
    let mut game = custom_game(pieces.clone(), Color::White);
    game.state.half_move_clock = 49;
    assert!(game.make_move(mv("A1B1")).is_ok());
    assert_eq!(game.state.half_move_clock, 50);
    assert_eq!(game.result, Some(GameResult::FiftyMoves));

    // A pawn move at the same point resets the clock instead.
    let mut game = custom_game(pieces.clone(), Color::Black);
    game.state.half_move_clock = 49;
    assert!(game.make_move(mv("B7B6")).is_ok());
    assert_eq!(game.state.half_move_clock, 0);
    assert!(game.result.is_none());

    // So does a capture.
    let mut game = custom_game(pieces, Color::White);
    game.state.half_move_clock = 49;
    let record = game.make_move(mv("A1A8")).unwrap();
    assert!(record.capture);
    assert_eq!(game.state.half_move_clock, 0);
    assert!(game.result.is_none());
}

#[test]
fn quiet_moves_advance_the_half_move_clock() {
    let mut game = Game::new();
    play(&mut game, &["G1F3", "G8F6"]);
    assert_eq!(game.state.half_move_clock, 2);

    play(&mut game, &["E2E4"]);
    assert_eq!(game.state.half_move_clock, 0);
}

#[test]
fn takeback_restores_the_previous_position() {
    let mut game = Game::new();
    let fresh = Game::new();

    assert_eq!(game.takeback_move(), Err(MoveFailureReason::NoPreviousPositions));

    play(&mut game, &["E2E4", "E7E5"]);
    assert!(game.takeback_move().is_ok());
    assert!(game.takeback_move().is_ok());

    assert!(game.state.board.state.state_equals(&fresh.state.board.state));
    assert_eq!(game.state.current_turn, Color::White);
    assert_eq!(game.state_history.len(), 0);
    assert_eq!(game.takeback_move(), Err(MoveFailureReason::NoPreviousPositions));

    // The restored pieces still know their moves: play on.
    assert!(game.make_move(mv("D2D4")).is_ok());
}

#[test]
fn takeback_restores_castling_rights_and_en_passant() {
    let mut game = Game::new();

    play(&mut game, &["E2E4", "E7E5"]);
    let before = game.state.board.state.get_hash();

    play(&mut game, &["E1E2", "D7D5"]);
    assert!(!game.state.board.state.white_castling_rights.short_castle);

    assert!(game.takeback_move().is_ok());
    assert!(game.takeback_move().is_ok());

    assert!(game.state.board.state.white_castling_rights.short_castle);
    assert_eq!(game.state.board.state.get_hash(), before);
}

#[test]
fn resignation_and_draw_agreement() {
    let mut game = Game::new();
    assert_eq!(game.resign(Color::Black), Ok(GameResult::Resignation(Color::Black)));
    assert_eq!(game.result.unwrap().get_winner(), Some(Color::White));

    let mut game = Game::new();
    assert_eq!(game.offer_draw(Color::White), Ok(GameResult::Ongoing));
    // Repeating one's own offer changes nothing.
    assert_eq!(game.offer_draw(Color::White), Ok(GameResult::Ongoing));
    assert!(game.result.is_none());

    assert_eq!(game.offer_draw(Color::Black), Ok(GameResult::DrawAgreed));
    assert_eq!(game.result, Some(GameResult::DrawAgreed));
    assert_eq!(game.result.unwrap().get_winner(), None);
    assert_eq!(game.offer_draw(Color::White), Err(MoveFailureReason::GameEnded));
}

#[test]
fn takeback_offers_consummate_when_both_sides_agree() {
    let mut game = Game::new();
    play(&mut game, &["E2E4"]);

    assert_eq!(game.offer_takeback(Color::Black), Ok(false));
    assert_eq!(game.offer_takeback(Color::Black), Ok(false));
    assert_eq!(game.state_history.len(), 1);

    assert_eq!(game.offer_takeback(Color::White), Ok(true));
    assert_eq!(game.state_history.len(), 0);
    assert_eq!(game.state.current_turn, Color::White);

    // With no history, a double offer reports the failure.
    assert_eq!(game.offer_takeback(Color::White), Ok(false));
    assert_eq!(
        game.offer_takeback(Color::Black),
        Err(MoveFailureReason::NoPreviousPositions)
    );
}

#[test]
fn every_opening_move_round_trips_through_takeback() {
    let fresh = Game::new();
    let moves = fresh.state.board.get_valid_moves_for(Color::White);
    assert_eq!(moves.len(), 20);

    for m in moves {
        let mut game = Game::new();
        game.make_move(NewMove { from: m.from, to: m.to, extra: Extra::Nothing })
            .unwrap();
        game.takeback_move().unwrap();

        assert!(
            game.state.board.state.state_equals(&fresh.state.board.state),
            "takeback after {:?}-{:?} did not restore the position",
            m.from,
            m.to
        );
        assert_eq!(game.state.current_turn, Color::White);
        assert_eq!(game.state.half_move_clock, 0);
        assert_eq!(game.state_history.len(), 0);
    }
}

#[test]
fn en_passant_target_outlives_non_pawn_moves() {
    // Only a pawn's side effects touch the en-passant target: a knight
    // reply leaves it standing.
    let mut game = Game::new();
    play(&mut game, &["E2E4"]);
    assert_eq!(game.state.board.state.en_passant_square, Some(sq(5, 3)));

    play(&mut game, &["G8F6"]);
    assert_eq!(game.state.board.state.en_passant_square, Some(sq(5, 3)));
}

#[test]
fn castling_out_of_check_is_rejected() {
    let pieces = vec![
        Piece::new(sq(5, 1), Color::White, Type::King),
        Piece::new(sq(8, 1), Color::White, Type::Rook),
        Piece::new(sq(5, 8), Color::Black, Type::Rook),
        Piece::new(sq(1, 8), Color::Black, Type::King),
    ];
    let mut game = custom_game(pieces, Color::White);

    assert_eq!(game.make_move(mv("E1G1")), Err(MoveFailureReason::MoveInvalid));
}

#[test]
fn out_of_time_names_the_opposite_winner() {
    assert_eq!(GameResult::OutOfTime(Color::White).get_winner(), Some(Color::Black));
    assert_eq!(GameResult::OutOfTime(Color::Black).get_winner(), Some(Color::White));
    assert_eq!(GameResult::Ongoing.get_winner(), None);
}

#[test]
fn reset_returns_to_the_opening_position() {
    let mut game = Game::new();
    play(&mut game, &["E2E4", "E7E5"]);
    game.reset();

    let fresh = Game::new();
    assert!(game.state.board.state.state_equals(&fresh.state.board.state));
    assert_eq!(game.state.current_turn, Color::White);
    assert_eq!(game.state_history.len(), 0);
    assert!(game.result.is_none());
}

#[test]
fn result_messages() {
    assert_eq!(GameResult::Ongoing.pretty_message(), "The game is still ongoing.");
    assert_eq!(GameResult::Stalemated.pretty_message(), "Stalemate.");
    assert_eq!(GameResult::FiftyMoves.pretty_message(), "50-move rule violation.");
    assert_eq!(
        GameResult::CheckMate(Color::Black).pretty_message(),
        "Black is checkmated."
    );
    assert_eq!(
        GameResult::ThreefoldRepetition.pretty_message(),
        "Three-fold repetition."
    );
}

#[test]
fn default_board_and_game_agree() {
    let game = Game::new();
    let mut board = Board::new();
    board.setup_default_board();
    assert!(game.state.board.state.state_equals(&board.state));
}
