//! Piece model: piece identity and the per-type movement policies that
//! generate candidate squares and validate moves.

use vstd::prelude::*;

use crate::moves::{Extra, HistoryMove, NewMove};
use crate::square::{abs_diff, off, on_ray, spec_step, Color, Square};
use vstd::seq_lib::lemma_seq_concat_contains_all_elements;
use vstd::seq_lib::lemma_seq_contains_after_push;
use vstd::seq_lib::lemma_seq_empty_contains_nothing;

verus! {

broadcast use lemma_seq_contains_after_push, lemma_seq_empty_contains_nothing, lemma_seq_concat_contains_all_elements;

/// The six chess piece types.
#[derive(Eq, PartialEq, Copy, Clone, Debug, Hash, Structural)]
pub enum Type {
    King,
    Queen,
    Rook,
    Bishop,
    Knight,
    Pawn,
}

/// What identifies a piece apart from where it stands: its side and type.
#[derive(Eq, PartialEq, Copy, Clone, Debug, Structural)]
pub struct PieceKind {
    pub color: Color,
    pub piece_type: Type,
}

/// The rank direction a pawn of this color advances in.
pub open spec fn advance_dir(c: Color) -> int {
    if c == Color::White {
        1
    } else {
        -1
    }
}

/// The rank a pawn of this color starts on.
pub open spec fn pawn_home_rank(c: Color) -> int {
    if c == Color::White {
        2
    } else {
        7
    }
}

/// to lies on a rook line from from: same file or same rank.
pub open spec fn rook_line(from: Square, to: Square) -> bool {
    to != from && (to.file_number == from.file_number || to.rank_number == from.rank_number)
}

/// to lies on a bishop diagonal from from.
pub open spec fn bishop_line(from: Square, to: Square) -> bool {
    to != from && abs_diff(to.file_number as int, from.file_number as int) == abs_diff(
        to.rank_number as int,
        from.rank_number as int,
    )
}

/// to is a knight jump away from from.
pub open spec fn knight_jump(from: Square, to: Square) -> bool {
    let f = abs_diff(to.file_number as int, from.file_number as int);
    let r = abs_diff(to.rank_number as int, from.rank_number as int);
    (f == 1 && r == 2) || (f == 2 && r == 1)
}

/// to is one king step from from, or a two-file lateral castle step.
pub open spec fn king_step(from: Square, to: Square) -> bool {
    let f = abs_diff(to.file_number as int, from.file_number as int);
    let r = abs_diff(to.rank_number as int, from.rank_number as int);
    (f <= 1 && r <= 1 && !(f == 0 && r == 0)) || (r == 0 && f == 2)
}

/// to is a pawn step for this color: one forward, one forward-diagonal,
/// or two forward from the pawn's home rank.
pub open spec fn pawn_reach(c: Color, from: Square, to: Square) -> bool {
    let d = advance_dir(c);
    ||| (to.file_number == from.file_number && to.rank_number == from.rank_number + d)
    ||| (abs_diff(to.file_number as int, from.file_number as int) == 1 && to.rank_number
        == from.rank_number + d)
    ||| (to.file_number == from.file_number && from.rank_number == pawn_home_rank(c)
        && to.rank_number == from.rank_number + 2 * d)
}

/// The raw geometric reach of a piece: occupancy and check are ignored,
/// and every candidate lies on the board.
pub open spec fn is_candidate(kind: PieceKind, from: Square, to: Square) -> bool {
    to.valid() && match kind.piece_type {
        Type::King => king_step(from, to),
        Type::Queen => rook_line(from, to) || bishop_line(from, to),
        Type::Rook => rook_line(from, to),
        Type::Bishop => bishop_line(from, to),
        Type::Knight => knight_jump(from, to),
        Type::Pawn => pawn_reach(kind.color, from, to),
    }
}

/// A piece: where it stands, whose it is, what it is, and its cached
/// list of geometrically reachable squares.
pub struct Piece {
    pub location: Square,
    pub color: Color,
    pub piece_type: Type,
    pub valid_moves: Vec<Square>,
}

impl Piece {
    pub open spec fn kind(self) -> PieceKind {
        PieceKind { color: self.color, piece_type: self.piece_type }
    }

    /// The cached candidate list holds exactly the geometric candidates.
    pub open spec fn cache_ok(self) -> bool {
        forall|t: Square|
            #[trigger] self.valid_moves@.contains(t) <==> is_candidate(self.kind(), self.location, t)
    }

    /// A piece stands on the board and its candidate cache is current.
    pub open spec fn wf(self) -> bool {
        self.location.valid() && self.cache_ok()
    }

    /// Two pieces agree on location, side, type and cache contents.
    pub open spec fn equiv(self, other: Piece) -> bool {
        self.location == other.location && self.color == other.color && self.piece_type
            == other.piece_type && self.valid_moves@ == other.valid_moves@
    }
}

/// Piece equality goes by location, side and type; the candidate cache is
/// a derived value and not part of identity.
impl PartialEq for Piece {
    fn eq(&self, other: &Self) -> bool {
        self.location == other.location && self.color == other.color && self.piece_type
            == other.piece_type
    }
}

impl vstd::std_specs::cmp::PartialEqSpecImpl for Piece {
    open spec fn obeys_eq_spec() -> bool {
        true
    }

    open spec fn eq_spec(&self, other: &Piece) -> bool {
        self.location == other.location && self.color == other.color && self.piece_type
            == other.piece_type
    }
}

impl Clone for Piece {
    /// The clone agrees with the original on every field, the candidate
    /// cache included.
    fn clone(&self) -> (r: Self)
        ensures
            r.equiv(*self),
    {
        let mut valid_moves: Vec<Square> = Vec::new();
        let mut i: usize = 0;

        while i < self.valid_moves.len()
            invariant
                i <= self.valid_moves@.len(),
                valid_moves@ == self.valid_moves@.take(i as int),
            decreases self.valid_moves@.len() - i,
        {
            valid_moves.push(self.valid_moves[i]);
            proof {
                assert(valid_moves@ =~= self.valid_moves@.take(i + 1));
            }
            i = i + 1;
        }
        proof {
            assert(valid_moves@ =~= self.valid_moves@);
        }

        Piece { location: self.location, color: self.color, piece_type: self.piece_type, valid_moves }
    }
}

/// Appends the square one (df, dr) step from the piece when it is on the
/// board; off-board steps are discarded.
fn push_relative(piece: &mut Piece, df: i8, dr: i8)
    ensures
        final(piece).location == old(piece).location,
        final(piece).color == old(piece).color,
        final(piece).piece_type == old(piece).piece_type,
        final(piece).valid_moves@ == if spec_step(old(piece).location, df, dr).valid() {
            old(piece).valid_moves@.push(spec_step(old(piece).location, df, dr))
        } else {
            old(piece).valid_moves@
        },
{
    let sq = piece.location.get_relative(df, dr);

    if sq.is_valid() {
        piece.valid_moves.push(sq);
    }
}

/// The movement policy of the knight: eight fixed jump offsets.
pub struct KnightMoveController {}

impl KnightMoveController {
    pub fn recalculate_valid_moves(&self, piece: &mut Piece)
        requires
            old(piece).location.valid(),
            old(piece).piece_type == Type::Knight,
            old(piece).valid_moves@ == Seq::<Square>::empty(),
        ensures
            final(piece).location == old(piece).location,
            final(piece).color == old(piece).color,
            final(piece).piece_type == old(piece).piece_type,
            final(piece).cache_ok(),
    {
        push_relative(piece, 1, 2);
        push_relative(piece, -1, 2);
        push_relative(piece, 1, -2);
        push_relative(piece, -1, -2);
        push_relative(piece, 2, 1);
        push_relative(piece, -2, 1);
        push_relative(piece, 2, -1);
        push_relative(piece, -2, -1);
    }
}

/// The movement policy of the king: the eight adjacent squares plus the
/// two lateral two-file castle steps, which validation filters.
pub struct KingMoveController {}

impl KingMoveController {
    pub fn recalculate_valid_moves(&self, piece: &mut Piece)
        requires
            old(piece).location.valid(),
            old(piece).piece_type == Type::King,
            old(piece).valid_moves@ == Seq::<Square>::empty(),
        ensures
            final(piece).location == old(piece).location,
            final(piece).color == old(piece).color,
            final(piece).piece_type == old(piece).piece_type,
            final(piece).cache_ok(),
    {
        push_relative(piece, -1, -1);
        push_relative(piece, -1, 0);
        push_relative(piece, -1, 1);
        push_relative(piece, 0, -1);
        push_relative(piece, 0, 1);
        push_relative(piece, 1, -1);
        push_relative(piece, 1, 0);
        push_relative(piece, 1, 1);
        push_relative(piece, -2, 0);
        push_relative(piece, 2, 0);
    }
}

/// The movement policy of the pawn: one step forward, the two
/// forward-diagonal captures, and a two-step advance from the home rank.
pub struct PawnMoveController {}

impl PawnMoveController {
    pub fn recalculate_valid_moves(&self, piece: &mut Piece)
        requires
            old(piece).location.valid(),
            old(piece).piece_type == Type::Pawn,
            old(piece).valid_moves@ == Seq::<Square>::empty(),
        ensures
            final(piece).location == old(piece).location,
            final(piece).color == old(piece).color,
            final(piece).piece_type == old(piece).piece_type,
            final(piece).cache_ok(),
    {
        let advance_direction = piece.get_advance_direction();

        push_relative(piece, 0, advance_direction);
        push_relative(piece, 1, advance_direction);
        push_relative(piece, -1, advance_direction);

        if (piece.location.rank_number == 2 && piece.color == Color::White) || (
        piece.location.rank_number == 7 && piece.color == Color::Black) {
            push_relative(piece, 0, advance_direction * 2);
        }
    }
}

/// Appends the whole on-board ray from the piece in direction (df, dr).
fn push_ray(piece: &mut Piece, df: i8, dr: i8)
    requires
        old(piece).location.valid(),
        -1 <= df <= 1,
        -1 <= dr <= 1,
        !(df == 0 && dr == 0),
    ensures
        final(piece).location == old(piece).location,
        final(piece).color == old(piece).color,
        final(piece).piece_type == old(piece).piece_type,
        final(piece).valid_moves@.len() >= old(piece).valid_moves@.len(),
        forall|t: Square|
            #[trigger] final(piece).valid_moves@.contains(t) <==> old(piece).valid_moves@.contains(
                t,
            ) || (t.valid() && on_ray(old(piece).location, t, df as int, dr as int)),
{
    let mut ray = piece.location.get_relatives_until_invalid(df, dr);
    proof {
        crate::square::lemma_ray_membership(ray@, piece.location, df, dr);
    }
    piece.valid_moves.append(&mut ray);
}

/// The movement policy of the rook: full rays along its file and rank.
pub struct RookMoveController {}

impl RookMoveController {
    pub fn recalculate_valid_moves(&self, piece: &mut Piece)
        requires
            old(piece).location.valid(),
            old(piece).piece_type == Type::Rook,
            old(piece).valid_moves@ == Seq::<Square>::empty(),
        ensures
            final(piece).location == old(piece).location,
            final(piece).color == old(piece).color,
            final(piece).piece_type == old(piece).piece_type,
            final(piece).cache_ok(),
    {
        push_ray(piece, -1, 0);
        push_ray(piece, 1, 0);
        push_ray(piece, 0, 1);
        push_ray(piece, 0, -1);

        proof {
            lemma_rook_rays(piece.location);
        }
    }
}

/// The movement policy of the bishop: full rays along its two diagonals.
pub struct BishopMoveController {}

impl BishopMoveController {
    pub fn recalculate_valid_moves(&self, piece: &mut Piece)
        requires
            old(piece).location.valid(),
            old(piece).piece_type == Type::Bishop,
            old(piece).valid_moves@ == Seq::<Square>::empty(),
        ensures
            final(piece).location == old(piece).location,
            final(piece).color == old(piece).color,
            final(piece).piece_type == old(piece).piece_type,
            final(piece).cache_ok(),
    {
        push_ray(piece, -1, -1);
        push_ray(piece, 1, -1);
        push_ray(piece, -1, 1);
        push_ray(piece, 1, 1);

        proof {
            lemma_bishop_rays(piece.location);
        }
    }
}

/// The movement policy of the queen: the rook's and the bishop's rays.
pub struct QueenMoveController {}

impl QueenMoveController {
    pub fn recalculate_valid_moves(&self, piece: &mut Piece)
        requires
            old(piece).location.valid(),
            old(piece).piece_type == Type::Queen,
            old(piece).valid_moves@ == Seq::<Square>::empty(),
        ensures
            final(piece).location == old(piece).location,
            final(piece).color == old(piece).color,
            final(piece).piece_type == old(piece).piece_type,
            final(piece).cache_ok(),
    {
        push_ray(piece, -1, 0);
        push_ray(piece, 1, 0);
        push_ray(piece, 0, 1);
        push_ray(piece, 0, -1);
        push_ray(piece, -1, -1);
        push_ray(piece, 1, -1);
        push_ray(piece, -1, 1);
        push_ray(piece, 1, 1);

        proof {
            lemma_rook_rays(piece.location);
            lemma_bishop_rays(piece.location);
        }
    }
}

/// A square is on a rook line exactly when one of the four straight rays
/// reaches it.
proof fn lemma_rook_rays(from: Square)
    ensures
        forall|t: Square|
            #[trigger] rook_line(from, t) <==> (on_ray(from, t, -1, 0) || on_ray(from, t, 1, 0)
                || on_ray(from, t, 0, 1) || on_ray(from, t, 0, -1)),
{
    assert forall|t: Square| #[trigger] rook_line(from, t) implies (on_ray(from, t, -1, 0)
        || on_ray(from, t, 1, 0) || on_ray(from, t, 0, 1) || on_ray(from, t, 0, -1)) by {
        if t.file_number > from.file_number {
            let k = t.file_number - from.file_number;
            assert(1 <= k && t.file_number == from.file_number + off(k, 1) && t.rank_number
                == from.rank_number + off(k, 0));
            assert(on_ray(from, t, 1, 0));
        } else if t.file_number < from.file_number {
            let k = from.file_number - t.file_number;
            assert(1 <= k && t.file_number == from.file_number + off(k, -1) && t.rank_number
                == from.rank_number + off(k, 0));
            assert(on_ray(from, t, -1, 0));
        } else if t.rank_number > from.rank_number {
            let k = t.rank_number - from.rank_number;
            assert(1 <= k && t.file_number == from.file_number + off(k, 0) && t.rank_number
                == from.rank_number + off(k, 1));
            assert(on_ray(from, t, 0, 1));
        } else {
            let k = from.rank_number - t.rank_number;
            assert(1 <= k && t.file_number == from.file_number + off(k, 0) && t.rank_number
                == from.rank_number + off(k, -1));
            assert(on_ray(from, t, 0, -1));
        }
    }
}

/// A square is on a bishop diagonal exactly when one of the four diagonal
/// rays reaches it.
proof fn lemma_bishop_rays(from: Square)
    ensures
        forall|t: Square|
            #[trigger] bishop_line(from, t) <==> (on_ray(from, t, -1, -1) || on_ray(from, t, 1, -1)
                || on_ray(from, t, -1, 1) || on_ray(from, t, 1, 1)),
{
    assert forall|t: Square| #[trigger] bishop_line(from, t) implies (on_ray(from, t, -1, -1)
        || on_ray(from, t, 1, -1) || on_ray(from, t, -1, 1) || on_ray(from, t, 1, 1)) by {
        let k = abs_diff(t.file_number as int, from.file_number as int);
        if t.file_number > from.file_number {
            assert(t.file_number == from.file_number + off(k, 1));
        } else {
            assert(t.file_number == from.file_number + off(k, -1));
        }
        if t.rank_number > from.rank_number {
            assert(t.rank_number == from.rank_number + off(k, 1));
        } else {
            assert(t.rank_number == from.rank_number + off(k, -1));
        }
    }
}

/// The core pawn movement check, promotion requirement excluded.
fn check_pawn_core(board: &crate::board::Board, c: Color, from: Square, to: Square) -> (r: bool)
    requires
        board.wf(),
        from.valid(),
        to.valid(),
    ensures
        r == crate::board::pawn_core_ok(board.pos(), c, from, to),
{
    if to.file_number == from.file_number {
        board.get_piece(to).is_none()
    } else {
        let is_en_passant = match board.state.en_passant_square {
            Some(ep) => ep == to,
            None => false,
        };
        let capture = if is_en_passant {
            board.get_piece(Square { file_number: to.file_number, rank_number: from.rank_number })
        } else {
            board.get_piece(to)
        };

        match capture {
            Some(p) => p.color != c,
            None => false,
        }
    }
}

impl KingMoveController {
    /// A two-file lateral step is a castle attempt and must satisfy the
    /// castling conditions; any other candidate step is legal.
    pub fn check_if_move_valid(
        &self,
        board: &crate::board::Board,
        piece: &Piece,
        m: NewMove,
    ) -> (r: bool)
        requires
            board.wf(),
            piece.wf(),
            piece.piece_type == Type::King,
            m.to.valid(),
            m.extra != Extra::MoveCheck,
        ensures
            r == if m.to.file_number == piece.location.file_number + 2 {
                crate::board::can_castle_short_spec(board.pos(), piece.color, piece.location)
            } else if m.to.file_number + 2 == piece.location.file_number {
                crate::board::can_castle_long_spec(board.pos(), piece.color, piece.location)
            } else {
                true
            },
    {
        if m.to.file_number == piece.location.file_number + 2 {
            return self.can_castle_short(board, piece);
        }

        if m.to.file_number + 2 == piece.location.file_number {
            return self.can_castle_long(board, piece);
        }

        true
    }

    /// Whether the given king may castle short right now.
    pub fn can_castle_short(&self, board: &crate::board::Board, king: &Piece) -> (r: bool)
        requires
            board.wf(),
            king.location.valid(),
        ensures
            r == crate::board::can_castle_short_spec(board.pos(), king.color, king.location),
    {
        if !board.state.get_castling_rights_for(king.color).short_castle {
            return false;
        }

        let rank: u8 = if king.color == Color::White {
            1
        } else {
            8
        };

        if !(king.location.file_number == 5 && king.location.rank_number == rank) {
            return false;
        }

        let opponent = king.color.get_opposite();

        if board.is_attacked(king.location, Some(opponent)) {
            return false;
        }
        if board.is_attacked(Square { file_number: 6, rank_number: rank }, Some(opponent)) {
            return false;
        }
        if board.is_attacked(Square { file_number: 7, rank_number: rank }, Some(opponent)) {
            return false;
        }

        match board.get_piece(Square { file_number: 8, rank_number: rank }) {
            Some(rook) => {
                if rook.color != king.color || rook.piece_type != Type::Rook {
                    return false;
                }
            },
            None => {
                return false;
            },
        }

        if board.get_piece(Square { file_number: 6, rank_number: rank }).is_some() {
            return false;
        }
        if board.get_piece(Square { file_number: 7, rank_number: rank }).is_some() {
            return false;
        }

        true
    }

    /// Whether the given king may castle long right now.
    pub fn can_castle_long(&self, board: &crate::board::Board, king: &Piece) -> (r: bool)
        requires
            board.wf(),
            king.location.valid(),
        ensures
            r == crate::board::can_castle_long_spec(board.pos(), king.color, king.location),
    {
        if !board.state.get_castling_rights_for(king.color).long_castle {
            return false;
        }

        let rank: u8 = if king.color == Color::White {
            1
        } else {
            8
        };

        if !(king.location.file_number == 5 && king.location.rank_number == rank) {
            return false;
        }

        let opponent = king.color.get_opposite();

        if board.is_attacked(king.location, Some(opponent)) {
            return false;
        }
        if board.is_attacked(Square { file_number: 4, rank_number: rank }, Some(opponent)) {
            return false;
        }
        if board.is_attacked(Square { file_number: 3, rank_number: rank }, Some(opponent)) {
            return false;
        }

        match board.get_piece(Square { file_number: 1, rank_number: rank }) {
            Some(rook) => {
                if rook.color != king.color || rook.piece_type != Type::Rook {
                    return false;
                }
            },
            None => {
                return false;
            },
        }

        if board.get_piece(Square { file_number: 2, rank_number: rank }).is_some() {
            return false;
        }
        if board.get_piece(Square { file_number: 3, rank_number: rank }).is_some() {
            return false;
        }
        if board.get_piece(Square { file_number: 4, rank_number: rank }).is_some() {
            return false;
        }

        true
    }
}

impl PawnMoveController {
    /// Pawn side effects after a committed move: maintain the en-passant
    /// target, promote on the final rank, and complete an en-passant
    /// capture by removing the bypassed pawn and flagging the record.
    pub fn after_move(&self, board: &mut crate::board::Board)
        requires
            old(board).wf(),
            old(board).last_move matches Some(hm) && hm.from.valid() && hm.to.valid()
                && hm.piece_type == Type::Pawn,
        ensures
            final(board).wf(),
            old(board).last_move matches Some(hm) ==> final(board).pos()
                == crate::board::pawn_after_spec(old(board).pos(), hm) && final(board).last_move
                == Some(crate::board::record_after(old(board).pos(), hm))
                && final(board).highlighted_squares == old(board).highlighted_squares,
    {
        let last_move = match board.last_move {
            Some(hm) => hm,
            None => {
                return ;
            },
        };

        let advance_direction: i8 = if last_move.piece_color == Color::White {
            1
        } else {
            -1
        };

        // Read the en-passant state before this move rewrites it.
        let mut capture_square: Option<Square> = None;

        match board.state.en_passant_square {
            Some(en_passant_square) => {
                if en_passant_square == last_move.to && last_move.to.file_number
                    != last_move.from.file_number {
                    capture_square = Some(
                        Square {
                            file_number: last_move.to.file_number,
                            rank_number: last_move.from.rank_number,
                        },
                    );
                }
            },
            None => {},
        }

        // A two-square advance leaves the skipped square as the new target.
        let two_step_rank = last_move.from.rank_number as i16 + 2 * advance_direction as i16;

        if last_move.to.rank_number as i16 == two_step_rank {
            board.state.en_passant_square = Some(
                last_move.from.get_relative(0, advance_direction),
            );
        } else {
            board.state.en_passant_square = None;
        }

        // Promotion: the arriving pawn becomes the chosen piece, Queen by
        // default.
        if last_move.to.rank_number == 1 || last_move.to.rank_number == 8 {
            let new_piece_type = match last_move.extra {
                Extra::Promotion(new_type) => new_type,
                _ => Type::Queen,
            };

            board.remove_piece(last_move.to);
            board.set_piece(Piece::new(last_move.to, last_move.piece_color, new_piece_type));
        }

        match capture_square {
            Some(capture_square) => {
                board.last_move = Some(HistoryMove { capture: true, ..last_move });
                board.remove_piece(capture_square);
            },
            None => {},
        }

        proof {
            assert(final(board).pos() =~= crate::board::pawn_after_spec(
                old(board).pos(),
                old(board).last_move->Some_0,
            ));
        }
    }
}

impl RookMoveController {
    /// Rook side effect after a committed move: leaving a home-rank corner
    /// square forfeits the corresponding castling right.
    pub fn after_move(&self, board: &mut crate::board::Board)
        requires
            old(board).wf(),
            old(board).last_move is Some,
        ensures
            final(board).wf(),
            old(board).last_move matches Some(hm) ==> final(board).pos()
                == crate::board::rook_after_spec(old(board).pos(), hm) && final(board).last_move
                == old(board).last_move && final(board).highlighted_squares == old(board).highlighted_squares,
    {
        let last_move = match board.last_move {
            Some(hm) => hm,
            None => {
                return ;
            },
        };

        let home: u8 = if last_move.piece_color == Color::White {
            1
        } else {
            8
        };

        if last_move.from.file_number == 8 && last_move.from.rank_number == home {
            let rights = board.state.get_castling_rights_mut_for(last_move.piece_color);
            rights.short_castle = false;
        }

        if last_move.from.file_number == 1 && last_move.from.rank_number == home {
            let rights = board.state.get_castling_rights_mut_for(last_move.piece_color);
            rights.long_castle = false;
        }

        proof {
            assert(final(board).pos() =~= crate::board::rook_after_spec(
                old(board).pos(),
                old(board).last_move->Some_0,
            ));
        }
    }
}

impl KingMoveController {
    /// King side effects after a committed move: a castle relocates the
    /// rook, and any king move forfeits both castling rights.
    pub fn after_move(&self, board: &mut crate::board::Board)
        requires
            old(board).wf(),
            old(board).last_move matches Some(hm) && hm.from.valid() && hm.to.valid(),
        ensures
            final(board).wf(),
            old(board).last_move matches Some(hm) ==> final(board).pos()
                == crate::board::king_after_spec(old(board).pos(), hm) && final(board).last_move
                == old(board).last_move && final(board).highlighted_squares == old(board).highlighted_squares,
    {
        let last_move = match board.last_move {
            Some(hm) => hm,
            None => {
                return ;
            },
        };

        let mut rook_from: Option<Square> = None;
        let mut rook_to: Option<Square> = None;

        if last_move.to.file_number == last_move.from.file_number + 2 {
            // Short castle: the h-file rook crosses to the f-file.
            rook_from = Some(Square { file_number: 8, rank_number: last_move.to.rank_number });
            rook_to = Some(Square { file_number: 6, rank_number: last_move.to.rank_number });
        }

        if last_move.to.file_number + 2 == last_move.from.file_number {
            // Long castle: the a-file rook crosses to the d-file.
            rook_from = Some(Square { file_number: 1, rank_number: last_move.to.rank_number });
            rook_to = Some(Square { file_number: 4, rank_number: last_move.to.rank_number });
        }

        match (rook_from, rook_to) {
            (Some(from), Some(to)) => {
                board.remove_piece(from);
                board.set_piece(Piece::new(to, last_move.piece_color, Type::Rook));
            },
            _ => {},
        }

        let rights = board.state.get_castling_rights_mut_for(last_move.piece_color);
        rights.short_castle = false;
        rights.long_castle = false;

        proof {
            assert(final(board).pos() =~= crate::board::king_after_spec(
                old(board).pos(),
                old(board).last_move->Some_0,
            ));
        }
    }
}

impl KnightMoveController {
    /// The knight has no side effects after a move.
    pub fn after_move(&self, board: &mut crate::board::Board)
        ensures
            *final(board) == *old(board),
    {
    }
}

impl BishopMoveController {
    /// The bishop has no side effects after a move.
    pub fn after_move(&self, board: &mut crate::board::Board)
        ensures
            *final(board) == *old(board),
    {
    }
}

impl QueenMoveController {
    /// The queen has no side effects after a move.
    pub fn after_move(&self, board: &mut crate::board::Board)
        ensures
            *final(board) == *old(board),
    {
    }
}

impl Piece {
    /// The type-specific side effects this piece applies once its move is
    /// committed, driven by the board's last-move record.
    pub fn after_move(&self, board: &mut crate::board::Board)
        requires
            old(board).wf(),
            old(board).last_move matches Some(hm) && hm.from.valid() && hm.to.valid()
                && hm.piece_type == self.piece_type,
        ensures
            final(board).wf(),
            old(board).last_move matches Some(hm) ==> final(board).pos()
                == crate::board::after_effects(old(board).pos(), hm) && final(board).last_move
                == Some(crate::board::record_after(old(board).pos(), hm)) && final(board).highlighted_squares == old(board).highlighted_squares,
    {
        match self.piece_type {
            Type::King => (KingMoveController {}).after_move(board),
            Type::Queen => (QueenMoveController {}).after_move(board),
            Type::Rook => (RookMoveController {}).after_move(board),
            Type::Bishop => (BishopMoveController {}).after_move(board),
            Type::Knight => (KnightMoveController {}).after_move(board),
            Type::Pawn => (PawnMoveController {}).after_move(board),
        }
    }
}

impl Piece {
    /// A freshly created piece with its candidate cache computed.
    pub fn new(location: Square, color: Color, piece_type: Type) -> (r: Self)
        requires
            location.valid(),
        ensures
            r.location == location,
            r.color == color,
            r.piece_type == piece_type,
            r.wf(),
    {
        let mut piece = Self { location, color, piece_type, valid_moves: Vec::new() };

        piece.recalculate_valid_moves();
        piece
    }

    /// +1 for White, -1 for Black.
    pub fn get_advance_direction(&self) -> (r: i8)
        ensures
            r as int == advance_dir(self.color),
    {
        if self.color == Color::White {
            1
        } else {
            -1
        }
    }

    /// Recomputes the candidate cache from the piece's current location.
    pub fn recalculate_valid_moves(&mut self)
        requires
            old(self).location.valid(),
        ensures
            final(self).location == old(self).location,
            final(self).color == old(self).color,
            final(self).piece_type == old(self).piece_type,
            final(self).wf(),
    {
        self.valid_moves.clear();

        match self.piece_type {
            Type::King => (KingMoveController {}).recalculate_valid_moves(self),
            Type::Queen => (QueenMoveController {}).recalculate_valid_moves(self),
            Type::Rook => (RookMoveController {}).recalculate_valid_moves(self),
            Type::Bishop => (BishopMoveController {}).recalculate_valid_moves(self),
            Type::Knight => (KnightMoveController {}).recalculate_valid_moves(self),
            Type::Pawn => (PawnMoveController {}).recalculate_valid_moves(self),
        }
    }

    /// Whether this piece reaches `to` under the relaxed move-check
    /// probe used for attack detection.
    pub fn probe_move(&self, board: &crate::board::Board, to: Square) -> (r: bool)
        requires
            board.wf(),
            self.wf(),
        ensures
            r == crate::board::probe_move_ok(board.pos(), self.kind(), self.location, to),
    {
        if !to.is_valid() {
            return false;
        }
        if !self.has_candidate(to) {
            return false;
        }

        match self.piece_type {
            Type::Knight => true,
            Type::Rook | Type::Bishop | Type::Queen => self.check_slide_path(board, to),
            Type::Pawn => check_pawn_core(board, self.color, self.location, to),
            Type::King => {
                let fd = if to.file_number >= self.location.file_number {
                    to.file_number - self.location.file_number
                } else {
                    self.location.file_number - to.file_number
                };
                fd != 2
            },
        }
    }

    /// Whether the squares strictly between this sliding piece and its
    /// candidate destination are all empty.
    fn check_slide_path(&self, board: &crate::board::Board, to: Square) -> (r: bool)
        requires
            board.wf(),
            self.location.valid(),
            to.valid(),
            crate::square::aligned(self.location, to),
            self.location != to,
        ensures
            r == crate::board::path_clear(board.pos(), self.location, to),
    {
        match self.location.find_path_to(&to) {
            Some(path) => {
                proof {
                    crate::board::lemma_path_clear_bridge(board.pos(), self.location, to, path@);
                }
                board.is_path_clear(path)
            },
            None => false,
        }
    }

    /// Full validation of a move request against this piece's movement
    /// rule; the origin is this piece's own square.
    pub fn is_move_valid(&self, board: &crate::board::Board, m: NewMove) -> (r: bool)
        requires
            board.wf(),
            self.wf(),
        ensures
            r == crate::board::valid_move_spec(
                board.pos(),
                self.kind(),
                self.location,
                m.to,
                m.extra,
            ),
    {
        if !m.to.is_valid() {
            return false;
        }

        match m.extra {
            Extra::MoveCheck => {
                return self.probe_move(board, m.to);
            },
            _ => {},
        }

        if !self.has_candidate(m.to) {
            return false;
        }

        match self.piece_type {
            Type::Knight => true,
            Type::Rook | Type::Bishop | Type::Queen => self.check_slide_path(board, m.to),
            Type::Pawn => {
                if !check_pawn_core(board, self.color, self.location, m.to) {
                    false
                } else if m.to.rank_number == 1 || m.to.rank_number == 8 {
                    match m.extra {
                        Extra::Promotion(_) => true,
                        _ => false,
                    }
                } else {
                    true
                }
            },
            Type::King => (KingMoveController {}).check_if_move_valid(board, self, m),
        }
    }

    /// Whether the cached candidate list holds `to`.
    pub fn has_candidate(&self, to: Square) -> (r: bool)
        ensures
            r == self.valid_moves@.contains(to),
    {
        let mut i: usize = 0;

        while i < self.valid_moves.len()
            invariant
                i <= self.valid_moves@.len(),
                forall|j: int| 0 <= j < i ==> self.valid_moves@[j] != to,
            decreases self.valid_moves@.len() - i,
        {
            if self.valid_moves[i] == to {
                return true;
            }
            i = i + 1;
        }

        false
    }
}

} // verus!
