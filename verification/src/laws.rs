//! Laws of the engine that span several operations, stated and proved
//! over the same specifications the operations' contracts use.

use vstd::prelude::*;

use crate::board::{
    apply_move, attacked, can_castle_long_spec, can_castle_short_spec, has_legal_move, in_check,
    king_home_rank, move_record, spec_mover, CastlingRights, Position,
};
use crate::game::{
    archived, insufficient_material, move_committed, repetition_count, takeback_applied, Game,
    GameResult,
};
use crate::moves::NewMove;
use crate::pieces::Type;
use crate::square::{Color, Square};

verus! {

/// Round trip: committing a move and then taking it back restores the
/// position identically - placement, castling rights and en-passant
/// target - along with the turn, the half-move clock, the offer lists
/// and the rest of the history.
pub proof fn lemma_move_takeback_round_trip(g0: Game, g1: Game, g2: Game, m: NewMove)
    requires
        move_committed(g0, g1, m),
        takeback_applied(g1, g2),
    ensures
        g2.state.board.pos() == g0.state.board.pos(),
        g2.state.current_turn == g0.state.current_turn,
        g2.state.half_move_clock == g0.state.half_move_clock,
        g2.state.draw_offers@ == g0.state.draw_offers@,
        g2.state.takeback_offers@ == g0.state.takeback_offers@,
        g2.state_history@ == g0.state_history@,
        g2.result is None,
{
    assert(g1.state_history@.last() == archived(g0.state));
    assert(g1.state_history@.drop_last() =~= g0.state_history@);
}

/// Any king move - castling included - forfeits both castling rights of
/// the mover's color.
pub proof fn lemma_king_move_clears_rights(p: Position, m: NewMove)
    requires
        spec_mover(p, m.from).piece_type == Type::King,
    ensures
        apply_move(p, m).rights(spec_mover(p, m.from).color) == (CastlingRights {
            short_castle: false,
            long_castle: false,
        }),
{
}

/// Short castling is refused while the square the king crosses or the
/// square it lands on is attacked by the opponent.
pub proof fn lemma_short_castle_needs_safe_passage(p: Position, c: Color, king_sq: Square)
    requires
        attacked(
            p,
            c.spec_opposite(),
            Square { file_number: 6, rank_number: king_home_rank(c) },
        ) || attacked(
            p,
            c.spec_opposite(),
            Square { file_number: 7, rank_number: king_home_rank(c) },
        ),
    ensures
        !can_castle_short_spec(p, c, king_sq),
{
}

/// Long castling is refused while the square the king crosses or the
/// square it lands on is attacked by the opponent.
pub proof fn lemma_long_castle_needs_safe_passage(p: Position, c: Color, king_sq: Square)
    requires
        attacked(
            p,
            c.spec_opposite(),
            Square { file_number: 4, rank_number: king_home_rank(c) },
        ) || attacked(
            p,
            c.spec_opposite(),
            Square { file_number: 3, rank_number: king_home_rank(c) },
        ),
    ensures
        !can_castle_long_spec(p, c, king_sq),
{
}

/// A committed capture or pawn move resets the half-move clock to zero.
pub proof fn lemma_capture_or_pawn_resets_clock(pre: Game, post: Game, m: NewMove)
    requires
        move_committed(pre, post, m),
        move_record(pre.state.board.pos(), m).capture || spec_mover(
            pre.state.board.pos(),
            m.from,
        ).piece_type == Type::Pawn,
    ensures
        post.state.half_move_clock == 0,
{
}

/// A committed quiet move - no capture, no pawn - advances the half-move
/// clock by one, and a game whose clock thereby reaches fifty does not
/// stay ongoing.
pub proof fn lemma_quiet_move_advances_clock(pre: Game, post: Game, m: NewMove)
    requires
        pre.wf(),
        move_committed(pre, post, m),
        !move_record(pre.state.board.pos(), m).capture,
        spec_mover(pre.state.board.pos(), m.from).piece_type != Type::Pawn,
    ensures
        post.state.half_move_clock == pre.state.half_move_clock + 1,
        post.state.half_move_clock >= 50 ==> post.result is Some,
{
}

/// A committed move that leaves the opponent without a legal move ends
/// the game at once: checkmate when the opponent stands in check,
/// stalemate otherwise.
pub proof fn lemma_no_reply_decides_the_game(pre: Game, post: Game, m: NewMove)
    requires
        move_committed(pre, post, m),
        !has_legal_move(post.state.board.pos(), post.state.current_turn),
    ensures
        post.result == if in_check(post.state.board.pos(), post.state.current_turn) {
            Some(GameResult::CheckMate(post.state.current_turn))
        } else {
            Some(GameResult::Stalemated)
        },
{
}

/// A committed move that leaves neither side with mating force draws the
/// game at once, unless the opponent already has no reply at all.
pub proof fn lemma_insufficient_material_draws(pre: Game, post: Game, m: NewMove)
    requires
        move_committed(pre, post, m),
        has_legal_move(post.state.board.pos(), post.state.current_turn),
        insufficient_material(post.state.board.pos()),
    ensures
        post.result == Some(GameResult::InsufficientMaterial),
{
}

/// Repetition ends the game exactly on the third occurrence of a
/// position: counting the new position itself and every archived state
/// standing for it, a committed move draws by repetition precisely when
/// that count reaches three and no higher-priority condition fires first.
pub proof fn lemma_repetition_draws_on_the_third_occurrence(pre: Game, post: Game, m: NewMove)
    requires
        move_committed(pre, post, m),
        has_legal_move(post.state.board.pos(), post.state.current_turn),
        !insufficient_material(post.state.board.pos()),
    ensures
        (post.result == Some(GameResult::ThreefoldRepetition)) == (1 + repetition_count(
            post.state_history@,
            post.state.board.pos(),
            post.state_history@.len() as int,
        ) >= 3),
{
}

} // verus!
