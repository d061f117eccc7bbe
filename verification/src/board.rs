//! Board model: the mutable position, attack and check detection, and
//! atomic move application.

use vstd::prelude::*;

use crate::moves::{Extra, HistoryMove, MoveFailureReason, NewMove};
use crate::pieces::{Piece, PieceKind, Type};
use crate::square::{Color, Square};

verus! {

/// Whether a side may still castle short or long. Rights are cleared when
/// the king or the relevant rook moves, and never restored.
#[derive(Eq, PartialEq, Copy, Clone, Debug, Structural)]
pub struct CastlingRights {
    pub short_castle: bool,
    pub long_castle: bool,
}

/// The mathematical snapshot of a position: what stands on each of the 64
/// squares (rank-major), the castling rights and the en-passant target.
/// Two board states describe the same position exactly when their
/// snapshots are equal; candidate caches do not enter into it.
#[verifier::ext_equal]
pub struct Position {
    pub occ: Seq<Option<PieceKind>>,
    pub white_rights: CastlingRights,
    pub black_rights: CastlingRights,
    pub en_passant: Option<Square>,
}

impl Position {
    /// What stands on a square; off-board squares hold nothing.
    pub open spec fn at(self, sq: Square) -> Option<PieceKind> {
        if sq.valid() {
            self.occ[sq.idx()]
        } else {
            None
        }
    }

    pub open spec fn rights(self, c: Color) -> CastlingRights {
        if c == Color::White {
            self.white_rights
        } else {
            self.black_rights
        }
    }

    /// The position with a piece of the given kind placed on sq.
    pub open spec fn place(self, sq: Square, k: PieceKind) -> Position {
        Position { occ: self.occ.update(sq.idx(), Some(k)), ..self }
    }

    /// The position with sq emptied.
    pub open spec fn clear_at(self, sq: Square) -> Position {
        Position { occ: self.occ.update(sq.idx(), None), ..self }
    }
}

/// The engine's minimal position snapshot: castling rights for both
/// sides, the en-passant target, and the piece placement.
pub struct BoardState {
    pub white_castling_rights: CastlingRights,
    pub black_castling_rights: CastlingRights,
    pub en_passant_square: Option<Square>,
    pub pieces: Vec<Option<Piece>>,
}

impl BoardState {
    /// The snapshot this state stands for.
    pub open spec fn pos(self) -> Position {
        Position {
            occ: Seq::new(
                64,
                |i: int|
                    match self.pieces@[i] {
                        Some(p) => Some(p.kind()),
                        None => None,
                    },
            ),
            white_rights: self.white_castling_rights,
            black_rights: self.black_castling_rights,
            en_passant: self.en_passant_square,
        }
    }

    /// The placement vector covers the 64 squares, and every stored piece
    /// stands at the square of its slot with a current candidate cache.
    pub open spec fn wf(self) -> bool {
        &&& self.pieces@.len() == 64
        &&& forall|i: int|
            0 <= i < 64 ==> ((#[trigger] self.pieces@[i]) matches Some(p) ==> p.wf()
                && p.location.idx() == i)
    }

    pub fn get_castling_rights_for(&self, color: Color) -> (r: &CastlingRights)
        ensures
            *r == self.pos().rights(color),
    {
        match color {
            Color::White => &self.white_castling_rights,
            Color::Black => &self.black_castling_rights,
        }
    }

    pub fn get_castling_rights_mut_for(&mut self, color: Color) -> (r: &mut CastlingRights)
        ensures
            *r == old(self).pos().rights(color),
            color == Color::White ==> *final(self) == (BoardState {
                white_castling_rights: *final(r),
                ..*old(self)
            }),
            color == Color::Black ==> *final(self) == (BoardState {
                black_castling_rights: *final(r),
                ..*old(self)
            }),
    {
        match color {
            Color::White => &mut self.white_castling_rights,
            Color::Black => &mut self.black_castling_rights,
        }
    }
}

/// The square standing at a given 0-to-63 placement index.
pub open spec fn square_at_idx(i: int) -> Square {
    Square { file_number: (i % 8 + 1) as u8, rank_number: (i / 8 + 1) as u8 }
}

/// Placement indices and valid squares correspond one to one.
pub proof fn lemma_square_idx(i: int)
    requires
        0 <= i < 64,
    ensures
        square_at_idx(i).valid(),
        square_at_idx(i).idx() == i,
        forall|sq: Square| sq.valid() && sq.idx() == i ==> sq == square_at_idx(i),
{
}

/// A board: the position snapshot, plus the two squares touched by the
/// last applied move and that move's structured record.
pub struct Board {
    pub highlighted_squares: Vec<Square>,
    pub state: BoardState,
    pub last_move: Option<HistoryMove>,
}

impl Board {
    pub open spec fn wf(self) -> bool {
        self.state.wf()
    }

    pub open spec fn pos(self) -> Position {
        self.state.pos()
    }

    /// An empty, fully-righted board.
    pub fn new() -> (r: Self)
        ensures
            r.wf(),
            r.pos() == empty_position(),
            r.highlighted_squares@ == Seq::<Square>::empty(),
            r.last_move is None,
    {
        Self::default()
    }

    pub fn get_piece(&self, location: Square) -> (r: Option<&Piece>)
        requires
            self.wf(),
        ensures
            r is Some <==> self.pos().at(location) is Some,
            r matches Some(p) ==> self.pos().at(location) == Some(p.kind()) && p.location
                == location && p.wf(),
    {
        if !location.is_valid() {
            return None;
        }

        let idx = location.get_unique_index() as usize;

        match &self.state.pieces[idx] {
            Some(p) => {
                proof {
                    lemma_square_idx(idx as int);
                }
                Some(p)
            },
            None => None,
        }
    }

    /// Places a piece on its own location, replacing whatever stood there.
    pub fn set_piece(&mut self, piece: Piece)
        requires
            old(self).wf(),
            piece.wf(),
        ensures
            final(self).wf(),
            final(self).pos() == old(self).pos().place(piece.location, piece.kind()),
            final(self).last_move == old(self).last_move,
            final(self).highlighted_squares == old(self).highlighted_squares,
    {
        let idx = piece.location.get_unique_index() as usize;

        self.state.pieces.set(idx, Some(piece));

        proof {
            assert(final(self).pos().occ =~= old(self).pos().occ.update(
                piece.location.idx(),
                Some(piece.kind()),
            ));
            assert(final(self).pos() =~= old(self).pos().place(piece.location, piece.kind()));
        }
    }

    /// Empties a square; off-board locations hold nothing to remove.
    pub fn remove_piece(&mut self, location: Square)
        requires
            old(self).wf(),
        ensures
            final(self).wf(),
            location.valid() ==> final(self).pos() == old(self).pos().clear_at(location),
            !location.valid() ==> *final(self) == *old(self),
            final(self).last_move == old(self).last_move,
            final(self).highlighted_squares == old(self).highlighted_squares,
    {
        if !location.is_valid() {
            return ;
        }

        let idx = location.get_unique_index() as usize;

        self.state.pieces.set(idx, None);

        proof {
            assert(final(self).pos().occ =~= old(self).pos().occ.update(location.idx(), None));
            assert(final(self).pos() =~= old(self).pos().clear_at(location));
        }
    }

    /// Empties the whole board; rights, en-passant target and move markers
    /// are untouched.
    pub fn clear_board(&mut self)
        requires
            old(self).wf(),
        ensures
            final(self).wf(),
            final(self).pos() == (Position { occ: empty_occ(), ..old(self).pos() }),
            final(self).last_move == old(self).last_move,
            final(self).highlighted_squares == old(self).highlighted_squares,
    {
        let mut i: usize = 0;

        while i < 64
            invariant
                old(self).wf(),
                self.state.pieces@.len() == 64,
                self.wf(),
                i <= 64,
                forall|j: int| 0 <= j < i ==> self.state.pieces@[j] is None,
                forall|j: int| i <= j < 64 ==> self.state.pieces@[j] == old(self).state.pieces@[j],
                self.state.white_castling_rights == old(self).state.white_castling_rights,
                self.state.black_castling_rights == old(self).state.black_castling_rights,
                self.state.en_passant_square == old(self).state.en_passant_square,
                self.last_move == old(self).last_move,
                self.highlighted_squares == old(self).highlighted_squares,
            decreases 64 - i,
        {
            self.state.pieces.set(i, None);
            i = i + 1;
        }

        proof {
            assert(final(self).pos().occ =~= empty_occ());
            assert(final(self).pos() =~= (Position { occ: empty_occ(), ..old(self).pos() }));
        }
    }
}

/// The rank a king of this color starts on.
pub open spec fn king_home_rank(c: Color) -> u8 {
    if c == Color::White {
        1
    } else {
        8
    }
}

/// All squares strictly between from and to are empty.
pub open spec fn path_clear(p: Position, from: Square, to: Square) -> bool {
    forall|k: int|
        1 <= k < crate::square::cheb(from, to) ==> p.at(
            #[trigger] crate::square::seg_point(from, to, k),
        ) is None
}

/// The core pawn movement rule, promotion requirement excluded: a straight
/// advance needs an empty destination; a diagonal step needs an enemy on
/// the destination, or behind the en-passant target when the destination
/// is that target.
pub open spec fn pawn_core_ok(p: Position, c: Color, from: Square, to: Square) -> bool {
    if to.file_number == from.file_number {
        p.at(to) is None
    } else {
        match (if p.en_passant == Some(to) {
            p.at(Square { file_number: to.file_number, rank_number: from.rank_number })
        } else {
            p.at(to)
        }) {
            Some(k) => k.color != c,
            None => false,
        }
    }
}

/// The relaxed reachability probe used for attack detection: promotion
/// tags and turn ownership are not demanded, and a castle step reaches
/// nothing, since a castle cannot capture.
pub open spec fn probe_move_ok(p: Position, k: PieceKind, from: Square, to: Square) -> bool {
    &&& to.valid()
    &&& crate::pieces::is_candidate(k, from, to)
    &&& match k.piece_type {
        Type::Knight => true,
        Type::Rook | Type::Bishop | Type::Queen => path_clear(p, from, to),
        Type::Pawn => pawn_core_ok(p, k.color, from, to),
        Type::King => crate::square::abs_diff(to.file_number as int, from.file_number as int) != 2,
    }
}

/// A piece of `by` standing on s reaches the target under the probe.
pub open spec fn attacks_from(p: Position, by: Color, s: Square, target: Square) -> bool {
    &&& s.valid()
    &&& p.at(s) matches Some(k) && k.color == by && probe_move_ok(p, k, s, target)
}

/// Some piece of `by` reaches the target under the probe.
pub open spec fn attacked(p: Position, by: Color, target: Square) -> bool {
    exists|s: Square| #[trigger] attacks_from(p, by, s, target)
}

/// A king of color c stands on s.
pub open spec fn king_square(p: Position, c: Color, s: Square) -> bool {
    s.valid() && p.at(s) == Some(PieceKind { color: c, piece_type: Type::King })
}

/// Some king of color c stands attacked by the opposite color.
pub open spec fn in_check(p: Position, c: Color) -> bool {
    exists|s: Square| #[trigger] king_square(p, c, s) && attacked(p, c.spec_opposite(), s)
}

/// Short castling: the right is intact, the king stands on its home
/// square with neither it nor the f- and g-file squares attacked, the
/// rook stands on the h-file home square, and the squares between king
/// and rook are empty.
pub open spec fn can_castle_short_spec(p: Position, c: Color, king_sq: Square) -> bool {
    let rank = king_home_rank(c);
    &&& p.rights(c).short_castle
    &&& king_sq == (Square { file_number: 5, rank_number: rank })
    &&& !attacked(p, c.spec_opposite(), king_sq)
    &&& !attacked(p, c.spec_opposite(), Square { file_number: 6, rank_number: rank })
    &&& !attacked(p, c.spec_opposite(), Square { file_number: 7, rank_number: rank })
    &&& p.at(Square { file_number: 8, rank_number: rank }) == Some(
        PieceKind { color: c, piece_type: Type::Rook },
    )
    &&& p.at(Square { file_number: 6, rank_number: rank }) is None
    &&& p.at(Square { file_number: 7, rank_number: rank }) is None
}

/// Long castling: as short castling, on the queenside; the king crosses
/// the d-file and lands on the c-file, and the b-, c- and d-file squares
/// must be empty.
pub open spec fn can_castle_long_spec(p: Position, c: Color, king_sq: Square) -> bool {
    let rank = king_home_rank(c);
    &&& p.rights(c).long_castle
    &&& king_sq == (Square { file_number: 5, rank_number: rank })
    &&& !attacked(p, c.spec_opposite(), king_sq)
    &&& !attacked(p, c.spec_opposite(), Square { file_number: 4, rank_number: rank })
    &&& !attacked(p, c.spec_opposite(), Square { file_number: 3, rank_number: rank })
    &&& p.at(Square { file_number: 1, rank_number: rank }) == Some(
        PieceKind { color: c, piece_type: Type::Rook },
    )
    &&& p.at(Square { file_number: 2, rank_number: rank }) is None
    &&& p.at(Square { file_number: 3, rank_number: rank }) is None
    &&& p.at(Square { file_number: 4, rank_number: rank }) is None
}

/// Full move validation for a piece of kind k standing on `from`. A
/// move-check probe uses the relaxed reachability rule; otherwise the
/// piece's own rule applies: sliding pieces need a clear path, a pawn
/// additionally needs a promotion choice on the final rank, and a king's
/// two-file lateral step must be a permitted castle.
pub open spec fn valid_move_spec(
    p: Position,
    k: PieceKind,
    from: Square,
    to: Square,
    extra: Extra,
) -> bool {
    if extra == Extra::MoveCheck {
        probe_move_ok(p, k, from, to)
    } else {
        &&& to.valid()
        &&& crate::pieces::is_candidate(k, from, to)
        &&& match k.piece_type {
            Type::Knight => true,
            Type::Rook | Type::Bishop | Type::Queen => path_clear(p, from, to),
            Type::Pawn => pawn_core_ok(p, k.color, from, to) && ((to.rank_number == 1
                || to.rank_number == 8) ==> extra matches Extra::Promotion(_)),
            Type::King => if to.file_number == from.file_number + 2 {
                can_castle_short_spec(p, k.color, from)
            } else if to.file_number + 2 == from.file_number {
                can_castle_long_spec(p, k.color, from)
            } else {
                true
            },
        }
    }
}

/// The kind of the piece standing on `from`; meaningful only when the
/// square is occupied.
pub open spec fn spec_mover(p: Position, from: Square) -> PieceKind {
    match p.at(from) {
        Some(k) => k,
        None => PieceKind { color: Color::White, piece_type: Type::Pawn },
    }
}

/// A pawn landing diagonally on the en-passant target captures en passant.
pub open spec fn ep_capture_flag(ep: Option<Square>, from: Square, to: Square) -> bool {
    ep == Some(to) && to.file_number != from.file_number
}

/// The promotion choice carried by a move's tag; Queen when none.
pub open spec fn promotion_type(extra: Extra) -> Type {
    match extra {
        Extra::Promotion(t) => t,
        _ => Type::Queen,
    }
}

/// The move record written when m is applied to p, before any en-passant
/// capture is accounted for.
pub open spec fn base_record(p: Position, m: NewMove) -> HistoryMove {
    HistoryMove {
        piece_color: spec_mover(p, m.from).color,
        piece_type: spec_mover(p, m.from).piece_type,
        from: m.from,
        to: m.to,
        capture: p.at(m.to) is Some,
        extra: m.extra,
    }
}

/// The position with one side's castling rights replaced.
pub open spec fn with_rights(p: Position, c: Color, r: CastlingRights) -> Position {
    if c == Color::White {
        Position { white_rights: r, ..p }
    } else {
        Position { black_rights: r, ..p }
    }
}

/// The pawn's side effects on the moved-to position q: set or clear the
/// en-passant target, replace a pawn reaching the final rank by the
/// promoted piece, and remove the pawn captured en passant.
pub open spec fn pawn_after_spec(q: Position, hm: HistoryMove) -> Position {
    let c = hm.piece_color;
    let promoted = if hm.to.rank_number == 1 || hm.to.rank_number == 8 {
        q.place(hm.to, PieceKind { color: c, piece_type: promotion_type(hm.extra) })
    } else {
        q
    };
    let captured = if ep_capture_flag(q.en_passant, hm.from, hm.to) {
        promoted.clear_at(Square { file_number: hm.to.file_number, rank_number: hm.from.rank_number })
    } else {
        promoted
    };
    let new_ep = if hm.to.rank_number == hm.from.rank_number + 2 * crate::pieces::advance_dir(c) {
        Some(
            Square {
                file_number: hm.from.file_number,
                rank_number: (hm.from.rank_number + crate::pieces::advance_dir(c)) as u8,
            },
        )
    } else {
        None
    };
    Position { en_passant: new_ep, ..captured }
}

/// The rook's side effect: leaving a home-rank corner square forfeits the
/// corresponding castling right for good.
pub open spec fn rook_after_spec(q: Position, hm: HistoryMove) -> Position {
    let c = hm.piece_color;
    let home = king_home_rank(c);
    with_rights(
        q,
        c,
        CastlingRights {
            short_castle: q.rights(c).short_castle && !(hm.from.file_number == 8
                && hm.from.rank_number == home),
            long_castle: q.rights(c).long_castle && !(hm.from.file_number == 1
                && hm.from.rank_number == home),
        },
    )
}

/// The king's side effects: a castle relocates the rook, and any king
/// move forfeits both castling rights.
pub open spec fn king_after_spec(q: Position, hm: HistoryMove) -> Position {
    let c = hm.piece_color;
    let rank = hm.to.rank_number;
    let rooked = if hm.to.file_number == hm.from.file_number + 2 {
        q.clear_at(Square { file_number: 8, rank_number: rank }).place(
            Square { file_number: 6, rank_number: rank },
            PieceKind { color: c, piece_type: Type::Rook },
        )
    } else if hm.to.file_number + 2 == hm.from.file_number {
        q.clear_at(Square { file_number: 1, rank_number: rank }).place(
            Square { file_number: 4, rank_number: rank },
            PieceKind { color: c, piece_type: Type::Rook },
        )
    } else {
        q
    };
    with_rights(rooked, c, CastlingRights { short_castle: false, long_castle: false })
}

/// The committed move's side effects on the moved-to position.
pub open spec fn after_effects(q: Position, hm: HistoryMove) -> Position {
    match hm.piece_type {
        Type::Pawn => pawn_after_spec(q, hm),
        Type::Rook => rook_after_spec(q, hm),
        Type::King => king_after_spec(q, hm),
        _ => q,
    }
}

/// The move record after side effects: an en-passant capture marks the
/// record as a capture.
pub open spec fn record_after(q: Position, hm: HistoryMove) -> HistoryMove {
    if hm.piece_type == Type::Pawn && ep_capture_flag(q.en_passant, hm.from, hm.to) {
        HistoryMove { capture: true, ..hm }
    } else {
        hm
    }
}

/// The position reached by applying the validated move m to p: the mover
/// leaves its origin, replaces whatever stood on the destination, and its
/// type's side effects follow.
pub open spec fn apply_move(p: Position, m: NewMove) -> Position {
    let k = spec_mover(p, m.from);
    after_effects(p.clear_at(m.from).clear_at(m.to).place(m.to, k), base_record(p, m))
}

/// The record of the validated move m applied to p.
pub open spec fn move_record(p: Position, m: NewMove) -> HistoryMove {
    let k = spec_mover(p, m.from);
    record_after(p.clear_at(m.from).clear_at(m.to).place(m.to, k), base_record(p, m))
}

/// Which failure, if any, an attempted move reports: an empty origin, a
/// destination the piece's rule refuses, or a same-color capture, in that
/// order; None means the move is accepted.
pub open spec fn attempt_error(p: Position, m: NewMove) -> Option<MoveFailureReason> {
    if p.at(m.from) is None {
        Some(MoveFailureReason::NoPiece)
    } else if !valid_move_spec(p, spec_mover(p, m.from), m.from, m.to, m.extra) {
        Some(MoveFailureReason::MoveInvalid)
    } else if p.at(m.to) matches Some(cap) && cap.color == spec_mover(p, m.from).color {
        Some(MoveFailureReason::CannotCaptureOwnPiece)
    } else {
        None
    }
}

/// Emptiness of the squares listed by find_path_to is emptiness of the
/// whole open segment.
pub proof fn lemma_path_clear_bridge(p: Position, from: Square, to: Square, path: Seq<Square>)
    requires
        from != to,
        path == crate::square::seg_seq(from, to),
    ensures
        (forall|i: int| 0 <= i < path.len() ==> p.at(#[trigger] path[i]) is None) <==> path_clear(
            p,
            from,
            to,
        ),
{
    if forall|i: int| 0 <= i < path.len() ==> p.at(#[trigger] path[i]) is None {
        assert forall|k: int|
            1 <= k < crate::square::cheb(from, to) implies p.at(
            #[trigger] crate::square::seg_point(from, to, k),
        ) is None by {
            assert(path[k - 1] == crate::square::seg_point(from, to, k));
            assert(p.at(path[k - 1]) is None);
        }
    } else {
        let i = choose|i: int| 0 <= i < path.len() && !(p.at(#[trigger] path[i]) is None);
        assert(path[i] == crate::square::seg_point(from, to, i + 1));
        assert(!(p.at(crate::square::seg_point(from, to, i + 1)) is None));
    }
}

impl Board {
    /// True exactly when none of the given squares are occupied.
    pub fn is_path_clear(&self, path: Vec<Square>) -> (r: bool)
        requires
            self.wf(),
        ensures
            r == forall|i: int|
                0 <= i < path@.len() ==> self.pos().at(#[trigger] path@[i]) is None,
    {
        let mut i: usize = 0;

        while i < path.len()
            invariant
                self.wf(),
                i <= path@.len(),
                forall|j: int| 0 <= j < i ==> self.pos().at(#[trigger] path@[j]) is None,
            decreases path@.len() - i,
        {
            if self.get_piece(path[i]).is_some() {
                return false;
            }
            i = i + 1;
        }

        true
    }

    /// Whether some piece of `by` reaches the square under the probe.
    fn is_attacked_by(&self, square: Square, by: Color) -> (r: bool)
        requires
            self.wf(),
        ensures
            r == attacked(self.pos(), by, square),
    {
        let mut i: usize = 0;

        while i < 64
            invariant
                self.wf(),
                i <= 64,
                forall|j: int|
                    0 <= j < i ==> !attacks_from(self.pos(), by, #[trigger] square_at_idx(j), square),
            decreases 64 - i,
        {
            proof {
                lemma_square_idx(i as int);
            }
            match &self.state.pieces[i] {
                Some(p) => {
                    if p.color == by {
                        if p.probe_move(self, square) {
                            proof {
                                assert(attacks_from(self.pos(), by, p.location, square));
                            }
                            return true;
                        }
                    }
                },
                None => {},
            }
            i = i + 1;
        }

        proof {
            if attacked(self.pos(), by, square) {
                let s = choose|s: Square| attacks_from(self.pos(), by, s, square);
                lemma_square_idx(s.idx());
                assert(!attacks_from(self.pos(), by, square_at_idx(s.idx()), square));
            }
        }

        false
    }

    /// Whether the square is reached, under the probe, by some piece of
    /// the given color, or of either color when none is given.
    pub fn is_attacked(&self, square: Square, color: Option<Color>) -> (r: bool)
        requires
            self.wf(),
        ensures
            r == match color {
                Some(c) => attacked(self.pos(), c, square),
                None => attacked(self.pos(), Color::White, square) || attacked(
                    self.pos(),
                    Color::Black,
                    square,
                ),
            },
    {
        match color {
            Some(c) => self.is_attacked_by(square, c),
            None => self.is_attacked_by(square, Color::White) || self.is_attacked_by(
                square,
                Color::Black,
            ),
        }
    }

    /// True exactly when some king of the given color stands on a square
    /// reached by an opposing piece under the probe.
    pub fn is_in_check(&self, color: Color) -> (r: bool)
        requires
            self.wf(),
        ensures
            r == in_check(self.pos(), color),
    {
        let mut i: usize = 0;

        while i < 64
            invariant
                self.wf(),
                i <= 64,
                forall|j: int|
                    0 <= j < i ==> !(king_square(self.pos(), color, #[trigger] square_at_idx(j))
                        && attacked(self.pos(), color.spec_opposite(), square_at_idx(j))),
            decreases 64 - i,
        {
            proof {
                lemma_square_idx(i as int);
            }
            let is_own_king = match &self.state.pieces[i] {
                Some(p) => p.piece_type == Type::King && p.color == color,
                None => false,
            };
            if is_own_king {
                let location = match &self.state.pieces[i] {
                    Some(p) => p.location,
                    None => Square { file_number: 0, rank_number: 0 },
                };
                if self.is_attacked_by(location, color.get_opposite()) {
                    proof {
                        assert(king_square(self.pos(), color, location));
                    }
                    return true;
                }
            }
            i = i + 1;
        }

        proof {
            if in_check(self.pos(), color) {
                let s = choose|s: Square|
                    #[trigger] king_square(self.pos(), color, s) && attacked(
                        self.pos(),
                        color.spec_opposite(),
                        s,
                    );
                lemma_square_idx(s.idx());
                assert(!(king_square(self.pos(), color, square_at_idx(s.idx())) && attacked(
                    self.pos(),
                    color.spec_opposite(),
                    square_at_idx(s.idx()),
                )));
            }
        }

        false
    }
}

impl Board {
    /// Attempts a move atomically: on any failure the board is left
    /// untouched and the exact reason is reported; on success the mover
    /// relocates, its side effects apply, the move record is stored and
    /// the two touched squares are highlighted. Whether the mover's own
    /// king is left in check is the caller's concern.
    pub fn make_move_if_valid(&mut self, m: NewMove) -> (r: Result<(), MoveFailureReason>)
        requires
            old(self).wf(),
        ensures
            final(self).wf(),
            r matches Err(e) ==> attempt_error(old(self).pos(), m) == Some(e) && *final(self)
                == *old(self),
            r is Ok ==> attempt_error(old(self).pos(), m) is None && final(self).pos()
                == apply_move(old(self).pos(), m) && final(self).last_move == Some(
                move_record(old(self).pos(), m),
            ) && final(self).highlighted_squares@ == seq![m.from, m.to],
    {
        let (piece_color, piece_type) = match self.get_piece(m.from) {
            Some(piece) => {
                if !piece.is_move_valid(self, m) {
                    return Err(MoveFailureReason::MoveInvalid);
                }
                (piece.color, piece.piece_type)
            },
            None => {
                return Err(MoveFailureReason::NoPiece);
            },
        };

        // A same-color piece on the destination refuses the move; an
        // enemy piece marks it as a capture.
        let mut was_capture = false;

        match self.get_piece(m.to) {
            Some(capture) => {
                if capture.color == piece_color {
                    return Err(MoveFailureReason::CannotCaptureOwnPiece);
                }
                was_capture = true;
            },
            None => {},
        }

        // Take the mover (and any captured piece) off the board.
        self.remove_piece(m.from);
        self.remove_piece(m.to);

        self.last_move = Some(
            HistoryMove { piece_color, piece_type, from: m.from, to: m.to, capture: was_capture, extra: m.extra },
        );

        // Re-create the mover on its destination and apply side effects.
        let piece = Piece::new(m.to, piece_color, piece_type);

        self.set_piece(piece.clone());
        piece.after_move(self);

        self.highlighted_squares.clear();
        self.highlighted_squares.push(m.from);
        self.highlighted_squares.push(m.to);

        proof {
            assert(final(self).highlighted_squares@ =~= seq![m.from, m.to]);
            assert(final(self).pos() =~= apply_move(old(self).pos(), m));
        }

        Ok(())
    }
}

/// How many pieces of one kind stand among the first n squares.
pub open spec fn count_kind(occ: Seq<Option<PieceKind>>, k: PieceKind, n: int) -> int
    decreases n,
{
    if n <= 0 {
        0
    } else {
        count_kind(occ, k, n - 1) + if occ[n - 1] == Some(k) {
            1int
        } else {
            0int
        }
    }
}

/// A count over n squares lies between 0 and n.
pub proof fn lemma_count_kind_bound(occ: Seq<Option<PieceKind>>, k: PieceKind, n: int)
    requires
        0 <= n,
    ensures
        0 <= count_kind(occ, k, n) <= n,
    decreases n,
{
    if n > 0 {
        lemma_count_kind_bound(occ, k, n - 1);
    }
}

/// How many pieces of one kind a position holds.
pub open spec fn piece_count(p: Position, c: Color, t: Type) -> int {
    count_kind(p.occ, PieceKind { color: c, piece_type: t }, 64)
}

/// Per-type piece counts for one side.
#[derive(Eq, PartialEq, Copy, Clone, Debug, Structural)]
pub struct PieceCounts {
    pub king: usize,
    pub queen: usize,
    pub rook: usize,
    pub bishop: usize,
    pub knight: usize,
    pub pawn: usize,
}

/// The standard point values: queen 9, rook 5, bishop and knight 3,
/// pawn 1; the king counts nothing.
pub open spec fn material_count(p: Position, c: Color) -> int {
    9 * piece_count(p, c, Type::Queen) + 5 * piece_count(p, c, Type::Rook) + 3 * piece_count(
        p,
        c,
        Type::Bishop,
    ) + 3 * piece_count(p, c, Type::Knight) + piece_count(p, c, Type::Pawn)
}

impl Board {
    /// How many pieces of each type the given side has on the board.
    pub fn get_pieces_count_by_type(&self, color: Color) -> (r: PieceCounts)
        requires
            self.wf(),
        ensures
            r.king == piece_count(self.pos(), color, Type::King),
            r.queen == piece_count(self.pos(), color, Type::Queen),
            r.rook == piece_count(self.pos(), color, Type::Rook),
            r.bishop == piece_count(self.pos(), color, Type::Bishop),
            r.knight == piece_count(self.pos(), color, Type::Knight),
            r.pawn == piece_count(self.pos(), color, Type::Pawn),
    {
        let mut counts = PieceCounts { king: 0, queen: 0, rook: 0, bishop: 0, knight: 0, pawn: 0 };
        let mut i: usize = 0;

        while i < 64
            invariant
                self.wf(),
                i <= 64,
                counts.king == count_kind(
                    self.pos().occ,
                    PieceKind { color, piece_type: Type::King },
                    i as int,
                ),
                counts.queen == count_kind(
                    self.pos().occ,
                    PieceKind { color, piece_type: Type::Queen },
                    i as int,
                ),
                counts.rook == count_kind(
                    self.pos().occ,
                    PieceKind { color, piece_type: Type::Rook },
                    i as int,
                ),
                counts.bishop == count_kind(
                    self.pos().occ,
                    PieceKind { color, piece_type: Type::Bishop },
                    i as int,
                ),
                counts.knight == count_kind(
                    self.pos().occ,
                    PieceKind { color, piece_type: Type::Knight },
                    i as int,
                ),
                counts.pawn == count_kind(
                    self.pos().occ,
                    PieceKind { color, piece_type: Type::Pawn },
                    i as int,
                ),
            decreases 64 - i,
        {
            proof {
                lemma_count_kind_bound(
                    self.pos().occ,
                    PieceKind { color, piece_type: Type::King },
                    i as int,
                );
                lemma_count_kind_bound(
                    self.pos().occ,
                    PieceKind { color, piece_type: Type::Queen },
                    i as int,
                );
                lemma_count_kind_bound(
                    self.pos().occ,
                    PieceKind { color, piece_type: Type::Rook },
                    i as int,
                );
                lemma_count_kind_bound(
                    self.pos().occ,
                    PieceKind { color, piece_type: Type::Bishop },
                    i as int,
                );
                lemma_count_kind_bound(
                    self.pos().occ,
                    PieceKind { color, piece_type: Type::Knight },
                    i as int,
                );
                lemma_count_kind_bound(
                    self.pos().occ,
                    PieceKind { color, piece_type: Type::Pawn },
                    i as int,
                );
            }
            match &self.state.pieces[i] {
                Some(p) => {
                    if p.color == color {
                        match p.piece_type {
                            Type::King => {
                                counts.king = counts.king + 1;
                            },
                            Type::Queen => {
                                counts.queen = counts.queen + 1;
                            },
                            Type::Rook => {
                                counts.rook = counts.rook + 1;
                            },
                            Type::Bishop => {
                                counts.bishop = counts.bishop + 1;
                            },
                            Type::Knight => {
                                counts.knight = counts.knight + 1;
                            },
                            Type::Pawn => {
                                counts.pawn = counts.pawn + 1;
                            },
                        }
                    }
                },
                None => {},
            }
            i = i + 1;
        }

        counts
    }

    /// The side's material in standard point values.
    pub fn get_material_count(&self, color: Color) -> (r: usize)
        requires
            self.wf(),
        ensures
            r == material_count(self.pos(), color),
    {
        let counts = self.get_pieces_count_by_type(color);

        proof {
            lemma_count_kind_bound(
                self.pos().occ,
                PieceKind { color, piece_type: Type::Queen },
                64,
            );
            lemma_count_kind_bound(self.pos().occ, PieceKind { color, piece_type: Type::Rook }, 64);
            lemma_count_kind_bound(
                self.pos().occ,
                PieceKind { color, piece_type: Type::Bishop },
                64,
            );
            lemma_count_kind_bound(
                self.pos().occ,
                PieceKind { color, piece_type: Type::Knight },
                64,
            );
            lemma_count_kind_bound(self.pos().occ, PieceKind { color, piece_type: Type::Pawn }, 64);
        }

        counts.queen * 9 + counts.rook * 5 + counts.bishop * 3 + counts.knight * 3 + counts.pawn
    }

    /// Recomputes every piece's candidate cache from its current square;
    /// the position itself is untouched.
    pub fn recalculate_all_pieces_movements(&mut self)
        requires
            old(self).wf(),
        ensures
            final(self).wf(),
            final(self).pos() == old(self).pos(),
            final(self).last_move == old(self).last_move,
            final(self).highlighted_squares == old(self).highlighted_squares,
    {
        let mut i: usize = 0;

        while i < 64
            invariant
                old(self).wf(),
                self.wf(),
                i <= 64,
                self.state.pieces@.len() == 64,
                self.pos() == old(self).pos(),
                self.last_move == old(self).last_move,
                self.highlighted_squares == old(self).highlighted_squares,
                self.state.white_castling_rights == old(self).state.white_castling_rights,
                self.state.black_castling_rights == old(self).state.black_castling_rights,
                self.state.en_passant_square == old(self).state.en_passant_square,
            decreases 64 - i,
        {
            let ghost pos_before = self.pos();
            let replacement = match &self.state.pieces[i] {
                Some(p) => Some(Piece::new(p.location, p.color, p.piece_type)),
                None => None,
            };

            self.state.pieces.set(i, replacement);

            proof {
                assert(self.pos().occ =~= pos_before.occ);
                assert(self.pos() =~= pos_before);
            }
            i = i + 1;
        }
    }
}

/// Codes the castling-rights pair as a two-bit value.
pub open spec fn rights_code(r: CastlingRights) -> u64 {
    ((if r.short_castle {
        1int
    } else {
        0int
    }) + (if r.long_castle {
        2int
    } else {
        0int
    })) as u64
}

/// Codes the en-passant target as its square index, or 64 for none.
pub open spec fn ep_code(ep: Option<Square>) -> u64 {
    match ep {
        Some(sq) => if sq.valid() {
            sq.idx() as u64
        } else {
            64
        },
        None => 64,
    }
}

/// Codes what stands on a square: 0 for empty, else the piece type and
/// color packed together.
pub open spec fn kind_code(o: Option<PieceKind>) -> u64 {
    match o {
        None => 0,
        Some(k) => {
            let t: int = match k.piece_type {
                Type::King => 1,
                Type::Queen => 2,
                Type::Rook => 3,
                Type::Bishop => 4,
                Type::Knight => 5,
                Type::Pawn => 6,
            };
            let c: int = if k.color == Color::White {
                0
            } else {
                1
            };
            (t * 2 + c) as u64
        },
    }
}

/// One mixing step of the position hash: rotate, then fold in a code.
pub open spec fn hash_mix(h: u64, c: u64) -> u64 {
    ((h << 7) | (h >> 57)) ^ c
}

/// The hash seed: rights and en-passant target packed together.
pub open spec fn hash_seed(p: Position) -> u64 {
    (rights_code(p.white_rights) + 4 * rights_code(p.black_rights) + 16 * ep_code(
        p.en_passant,
    )) as u64
}

/// The position hash over the first n squares.
pub open spec fn hash_upto(p: Position, n: int) -> u64
    decreases n,
{
    if n <= 0 {
        hash_seed(p)
    } else {
        hash_mix(hash_upto(p, n - 1), kind_code(p.occ[n - 1]))
    }
}

/// The position hash: a pure function of the position snapshot, covering
/// the rights, the en-passant target and all 64 squares in fixed order.
/// Equal positions always hash equally.
pub open spec fn spec_hash(p: Position) -> u64 {
    hash_upto(p, 64)
}

impl BoardState {
    /// The position hash of this state.
    pub fn get_hash(&self) -> (r: u64)
        requires
            self.wf(),
        ensures
            r == spec_hash(self.pos()),
    {
        let white: u64 = (if self.white_castling_rights.short_castle {
            1u64
        } else {
            0u64
        }) + (if self.white_castling_rights.long_castle {
            2u64
        } else {
            0u64
        });
        let black: u64 = (if self.black_castling_rights.short_castle {
            1u64
        } else {
            0u64
        }) + (if self.black_castling_rights.long_castle {
            2u64
        } else {
            0u64
        });
        let ep: u64 = match self.en_passant_square {
            Some(sq) => if sq.is_valid() {
                sq.get_unique_index() as u64
            } else {
                64u64
            },
            None => 64u64,
        };

        let mut h: u64 = white + 4 * black + 16 * ep;
        let mut i: usize = 0;

        while i < 64
            invariant
                self.wf(),
                i <= 64,
                h == hash_upto(self.pos(), i as int),
            decreases 64 - i,
        {
            let code: u64 = match &self.pieces[i] {
                None => 0,
                Some(p) => {
                    let t: u64 = match p.piece_type {
                        Type::King => 1,
                        Type::Queen => 2,
                        Type::Rook => 3,
                        Type::Bishop => 4,
                        Type::Knight => 5,
                        Type::Pawn => 6,
                    };
                    let c: u64 = if p.color == Color::White {
                        0
                    } else {
                        1
                    };
                    t * 2 + c
                },
            };

            h = ((h << 7) | (h >> 57)) ^ code;
            i = i + 1;
        }

        h
    }
}

/// Two board states describe one position exactly when rights, en-passant
/// target and the kind standing on every square all agree; candidate
/// caches play no part.
impl BoardState {
    pub fn state_equals(&self, other: &Self) -> (r: bool)
        requires
            self.wf(),
            other.wf(),
        ensures
            r == (self.pos() == other.pos()),
    {
        if self.white_castling_rights != other.white_castling_rights
            || self.black_castling_rights != other.black_castling_rights {
            return false;
        }

        let ep_equal = match (self.en_passant_square, other.en_passant_square) {
            (Some(a), Some(b)) => a == b,
            (None, None) => true,
            _ => false,
        };

        if !ep_equal {
            return false;
        }

        let mut i: usize = 0;

        while i < 64
            invariant
                self.pieces@.len() == 64,
                other.pieces@.len() == 64,
                i <= 64,
                forall|j: int| 0 <= j < i ==> self.pos().occ[j] == other.pos().occ[j],
            decreases 64 - i,
        {
            let same = match (&self.pieces[i], &other.pieces[i]) {
                (Some(a), Some(b)) => a.color == b.color && a.piece_type == b.piece_type,
                (None, None) => true,
                _ => false,
            };

            if !same {
                proof {
                    assert(self.pos().occ[i as int] != other.pos().occ[i as int]);
                }
                return false;
            }
            i = i + 1;
        }

        proof {
            assert(self.pos().occ =~= other.pos().occ);
            assert(self.pos() =~= other.pos());
        }

        true
    }
}

/// The back-rank piece type standing on a file in the opening array.
pub open spec fn back_rank_type(file: u8) -> Type {
    if file == 1 || file == 8 {
        Type::Rook
    } else if file == 2 || file == 7 {
        Type::Knight
    } else if file == 3 || file == 6 {
        Type::Bishop
    } else if file == 4 {
        Type::Queen
    } else {
        Type::King
    }
}

/// What stands on each square in the standard opening position.
pub open spec fn initial_kind_at(i: int) -> Option<PieceKind> {
    let sq = square_at_idx(i);
    if sq.rank_number == 1 {
        Some(PieceKind { color: Color::White, piece_type: back_rank_type(sq.file_number) })
    } else if sq.rank_number == 2 {
        Some(PieceKind { color: Color::White, piece_type: Type::Pawn })
    } else if sq.rank_number == 7 {
        Some(PieceKind { color: Color::Black, piece_type: Type::Pawn })
    } else if sq.rank_number == 8 {
        Some(PieceKind { color: Color::Black, piece_type: back_rank_type(sq.file_number) })
    } else {
        None
    }
}

/// The standard opening position: the 32-piece array, full rights on both
/// sides and no en-passant target.
pub open spec fn initial_position() -> Position {
    Position {
        occ: Seq::new(64, |i: int| initial_kind_at(i)),
        white_rights: CastlingRights { short_castle: true, long_castle: true },
        black_rights: CastlingRights { short_castle: true, long_castle: true },
        en_passant: None,
    }
}

impl Board {
    /// Clears the board, restores full castling rights on both sides,
    /// clears the en-passant target and the move markers, and places the
    /// standard 32-piece opening array.
    pub fn setup_default_board(&mut self)
        requires
            old(self).wf(),
        ensures
            final(self).wf(),
            final(self).pos() == initial_position(),
            final(self).last_move is None,
            final(self).highlighted_squares@ == Seq::<Square>::empty(),
    {
        let mut pieces: Vec<Option<Piece>> = Vec::new();
        let mut i: usize = 0;

        while i < 64
            invariant
                i <= 64,
                pieces@.len() == i,
                forall|j: int|
                    0 <= j < i ==> ((#[trigger] pieces@[j]) matches Some(p) ==> p.wf()
                        && p.location.idx() == j),
                forall|j: int|
                    0 <= j < i ==> (match pieces@[j] {
                        Some(p) => Some(p.kind()),
                        None => None,
                    }) == initial_kind_at(j),
            decreases 64 - i,
        {
            proof {
                lemma_square_idx(i as int);
            }
            let file: u8 = (i % 8) as u8 + 1;
            let rank: u8 = (i / 8) as u8 + 1;
            let sq = Square { file_number: file, rank_number: rank };
            let back_rank: Type = if file == 1 || file == 8 {
                Type::Rook
            } else if file == 2 || file == 7 {
                Type::Knight
            } else if file == 3 || file == 6 {
                Type::Bishop
            } else if file == 4 {
                Type::Queen
            } else {
                Type::King
            };

            let piece: Option<Piece> = if rank == 1 {
                Some(Piece::new(sq, Color::White, back_rank))
            } else if rank == 2 {
                Some(Piece::new(sq, Color::White, Type::Pawn))
            } else if rank == 7 {
                Some(Piece::new(sq, Color::Black, Type::Pawn))
            } else if rank == 8 {
                Some(Piece::new(sq, Color::Black, back_rank))
            } else {
                None
            };

            pieces.push(piece);
            i = i + 1;
        }

        self.state.pieces = pieces;
        self.state.white_castling_rights = CastlingRights { short_castle: true, long_castle: true };
        self.state.black_castling_rights = CastlingRights { short_castle: true, long_castle: true };
        self.state.en_passant_square = None;
        self.highlighted_squares = Vec::new();
        self.last_move = None;

        proof {
            assert(final(self).pos().occ =~= initial_position().occ);
            assert(final(self).pos() =~= initial_position());
        }
    }
}

/// Two boards agree on everything observable: the same kinds and caches
/// square by square, the same rights, target and move markers.
pub open spec fn board_equiv(a: Board, b: Board) -> bool {
    &&& a.state.pieces@.len() == b.state.pieces@.len()
    &&& forall|i: int|
        0 <= i < a.state.pieces@.len() ==> (match (
            #[trigger] a.state.pieces@[i],
            b.state.pieces@[i],
        ) {
            (Some(x), Some(y)) => x.equiv(y),
            (None, None) => true,
            _ => false,
        })
    &&& a.state.white_castling_rights == b.state.white_castling_rights
    &&& a.state.black_castling_rights == b.state.black_castling_rights
    &&& a.state.en_passant_square == b.state.en_passant_square
    &&& a.last_move == b.last_move
    &&& a.highlighted_squares@ == b.highlighted_squares@
}

/// Equivalent boards stand for the same position and are well-formed
/// together.
pub proof fn lemma_board_equiv(a: Board, b: Board)
    requires
        board_equiv(a, b),
    ensures
        a.state.pieces@.len() == 64 ==> a.pos() == b.pos(),
        a.wf() <==> b.wf(),
{
    if a.state.pieces@.len() == 64 {
        assert(a.pos().occ =~= b.pos().occ);
        assert(a.pos() =~= b.pos());
    }
    if a.wf() {
        assert forall|i: int|
            0 <= i < 64 implies ((#[trigger] b.state.pieces@[i]) matches Some(p) ==> p.wf()
            && p.location.idx() == i) by {
            assert(0 <= i < a.state.pieces@.len());
            match (a.state.pieces@[i], b.state.pieces@[i]) {
                (Some(x), Some(y)) => {
                    assert(x.wf());
                    assert(forall|t: Square|
                        #[trigger] y.valid_moves@.contains(t) <==> x.valid_moves@.contains(t));
                },
                _ => {},
            }
        }
    } else if b.wf() {
        assert forall|i: int|
            0 <= i < 64 implies ((#[trigger] a.state.pieces@[i]) matches Some(p) ==> p.wf()
            && p.location.idx() == i) by {
            assert(0 <= i < a.state.pieces@.len());
            match (a.state.pieces@[i], b.state.pieces@[i]) {
                (Some(x), Some(y)) => {
                    assert(y.wf());
                    assert(forall|t: Square|
                        #[trigger] x.valid_moves@.contains(t) <==> y.valid_moves@.contains(t));
                },
                _ => {},
            }
        }
    }
}

/// The reachability probe from one square to another.
pub open spec fn probe_of(from: Square, to: Square) -> NewMove {
    NewMove { from, to, extra: Extra::MoveCheck }
}

/// A fully legal destination for the piece standing on `from`: the probe
/// is accepted as a move and the mover's own king is not left in check.
pub open spec fn legal_probe(p: Position, from: Square, to: Square) -> bool {
    &&& attempt_error(p, probe_of(from, to)) is None
    &&& !in_check(apply_move(p, probe_of(from, to)), spec_mover(p, from).color)
}

/// A fully legal move of the given color: its piece stands on `from` and
/// may legally reach `to`.
pub open spec fn legal_probe_for(p: Position, c: Color, from: Square, to: Square) -> bool {
    &&& p.at(from) matches Some(k) && k.color == c
    &&& legal_probe(p, from, to)
}

/// The side has at least one fully legal move.
pub open spec fn has_legal_move(p: Position, c: Color) -> bool {
    exists|from: Square, to: Square| #[trigger] legal_probe_for(p, c, from, to)
}

impl Board {
    /// The fully legal moves of one piece standing on this board: each
    /// candidate square is probed on a clone of the board, and outcomes
    /// that fail or leave the mover's own king in check are discarded.
    pub fn get_valid_moves_for_piece(&self, piece: &Piece) -> (r: Vec<HistoryMove>)
        requires
            self.wf(),
            piece.wf(),
            self.pos().at(piece.location) == Some(piece.kind()),
        ensures
            forall|j: int|
                0 <= j < r@.len() ==> legal_probe(self.pos(), piece.location, (#[trigger] r@[j]).to)
                    && r@[j] == move_record(self.pos(), probe_of(piece.location, r@[j].to)),
            forall|to: Square|
                #[trigger] legal_probe(self.pos(), piece.location, to) ==> exists|j: int|
                    0 <= j < r@.len() && r@[j].to == to,
    {
        let mut valid_moves: Vec<HistoryMove> = Vec::new();
        let mut i: usize = 0;

        while i < piece.valid_moves.len()
            invariant
                self.wf(),
                piece.wf(),
                self.pos().at(piece.location) == Some(piece.kind()),
                i <= piece.valid_moves@.len(),
                forall|j: int|
                    0 <= j < valid_moves@.len() ==> legal_probe(
                        self.pos(),
                        piece.location,
                        (#[trigger] valid_moves@[j]).to,
                    ) && valid_moves@[j] == move_record(
                        self.pos(),
                        probe_of(piece.location, valid_moves@[j].to),
                    ),
                forall|ci: int|
                    0 <= ci < i && legal_probe(
                        self.pos(),
                        piece.location,
                        #[trigger] piece.valid_moves@[ci],
                    ) ==> exists|j: int|
                        0 <= j < valid_moves@.len() && valid_moves@[j].to == piece.valid_moves@[ci],
            decreases piece.valid_moves@.len() - i,
        {
            let to = piece.valid_moves[i];
            let mut board = self.clone();

            proof {
                lemma_board_equiv(board, *self);
            }

            let m = NewMove { from: piece.location, to, extra: Extra::MoveCheck };
            let ghost vm_before = valid_moves@;
            let ok = board.make_move_if_valid(m).is_ok();

            if ok && !board.is_in_check(piece.color) {
                let hm = match board.last_move {
                    Some(hm) => hm,
                    None => {
                        return valid_moves;
                    },
                };

                valid_moves.push(hm);

                proof {
                    assert(legal_probe(self.pos(), piece.location, to));
                    assert(valid_moves@[vm_before.len() as int].to == to);
                    assert forall|ci: int|
                        0 <= ci < i + 1 && legal_probe(
                            self.pos(),
                            piece.location,
                            #[trigger] piece.valid_moves@[ci],
                        ) implies exists|j: int|
                        0 <= j < valid_moves@.len() && valid_moves@[j].to
                            == piece.valid_moves@[ci] by {
                        if ci < i {
                            let j = choose|j: int|
                                0 <= j < vm_before.len() && vm_before[j].to
                                    == piece.valid_moves@[ci];
                            assert(valid_moves@[j].to == piece.valid_moves@[ci]);
                        } else {
                            assert(valid_moves@[vm_before.len() as int].to
                                == piece.valid_moves@[ci]);
                        }
                    }
                }
            } else {
                proof {
                    assert(!legal_probe(self.pos(), piece.location, to));
                }
            }

            i = i + 1;
        }

        proof {
            assert forall|to: Square|
                #[trigger] legal_probe(self.pos(), piece.location, to) implies exists|j: int|
                0 <= j < valid_moves@.len() && valid_moves@[j].to == to by {
                assert(valid_move_spec(
                    self.pos(),
                    piece.kind(),
                    piece.location,
                    to,
                    Extra::MoveCheck,
                ));
                assert(crate::pieces::is_candidate(piece.kind(), piece.location, to));
                assert(piece.valid_moves@.contains(to));
                let ci = choose|ci: int|
                    0 <= ci < piece.valid_moves@.len() && piece.valid_moves@[ci] == to;
                assert(legal_probe(self.pos(), piece.location, piece.valid_moves@[ci]));
            }
        }

        valid_moves
    }

    /// The fully legal moves of one side: the union of its pieces' legal
    /// moves.
    pub fn get_valid_moves_for(&self, color: Color) -> (r: Vec<HistoryMove>)
        requires
            self.wf(),
        ensures
            forall|j: int|
                0 <= j < r@.len() ==> legal_probe_for(
                    self.pos(),
                    color,
                    (#[trigger] r@[j]).from,
                    r@[j].to,
                ) && r@[j] == move_record(self.pos(), probe_of(r@[j].from, r@[j].to)),
            forall|from: Square, to: Square|
                #[trigger] legal_probe_for(self.pos(), color, from, to) ==> exists|j: int|
                    0 <= j < r@.len() && r@[j].from == from && r@[j].to == to,
            (r@.len() == 0) == !has_legal_move(self.pos(), color),
    {
        let mut valid_moves: Vec<HistoryMove> = Vec::new();
        let mut i: usize = 0;

        while i < 64
            invariant
                self.wf(),
                i <= 64,
                forall|j: int|
                    0 <= j < valid_moves@.len() ==> legal_probe_for(
                        self.pos(),
                        color,
                        (#[trigger] valid_moves@[j]).from,
                        valid_moves@[j].to,
                    ) && valid_moves@[j] == move_record(
                        self.pos(),
                        probe_of(valid_moves@[j].from, valid_moves@[j].to),
                    ),
                forall|from: Square, to: Square|
                    #[trigger] legal_probe_for(self.pos(), color, from, to) && from.idx() < i
                        ==> exists|j: int|
                        0 <= j < valid_moves@.len() && valid_moves@[j].from == from
                            && valid_moves@[j].to == to,
            decreases 64 - i,
        {
            proof {
                lemma_square_idx(i as int);
            }
            let piece_matches = match &self.state.pieces[i] {
                Some(p) => p.color == color,
                None => false,
            };

            if piece_matches {
                let ghost vm_before = valid_moves@;
                let mut piece_moves = match &self.state.pieces[i] {
                    Some(p) => self.get_valid_moves_for_piece(p),
                    None => Vec::new(),
                };
                let ghost pm = piece_moves@;

                valid_moves.append(&mut piece_moves);

                proof {
                    let loc = square_at_idx(i as int);
                    assert forall|from: Square, to: Square|
                        #[trigger] legal_probe_for(self.pos(), color, from, to) && from.idx() < i
                            + 1 implies exists|j: int|
                        0 <= j < valid_moves@.len() && valid_moves@[j].from == from
                            && valid_moves@[j].to == to by {
                        if from.idx() < i {
                            let j = choose|j: int|
                                0 <= j < vm_before.len() && vm_before[j].from == from
                                    && vm_before[j].to == to;
                            assert(valid_moves@[j].from == from && valid_moves@[j].to == to);
                        } else {
                            lemma_square_idx(from.idx());
                            assert(from == loc);
                            let j = choose|j: int| 0 <= j < pm.len() && pm[j].to == to;
                            assert(valid_moves@[vm_before.len() + j].from == from
                                && valid_moves@[vm_before.len() + j].to == to);
                        }
                    }
                }
            } else {
                proof {
                    assert forall|from: Square, to: Square|
                        #[trigger] legal_probe_for(self.pos(), color, from, to) && from.idx() < i
                            + 1 implies exists|j: int|
                        0 <= j < valid_moves@.len() && valid_moves@[j].from == from
                            && valid_moves@[j].to == to by {
                        if from.idx() == i {
                            lemma_square_idx(from.idx());
                            assert(from == square_at_idx(i as int));
                            assert(self.pos().at(from) == self.pos().occ[i as int]);
                            assert(false);
                        }
                    }
                }
            }

            i = i + 1;
        }

        proof {
            assert forall|from: Square, to: Square|
                #[trigger] legal_probe_for(self.pos(), color, from, to) implies exists|j: int|
                0 <= j < valid_moves@.len() && valid_moves@[j].from == from && valid_moves@[j].to
                    == to by {
                assert(from.valid());
                assert(from.idx() < 64);
            }
            if valid_moves@.len() > 0 {
                assert(legal_probe_for(
                    self.pos(),
                    color,
                    valid_moves@[0].from,
                    valid_moves@[0].to,
                ));
            }
            if has_legal_move(self.pos(), color) {
                let (from, to) = choose|from: Square, to: Square|
                    #[trigger] legal_probe_for(self.pos(), color, from, to);
                assert(exists|j: int|
                    0 <= j < valid_moves@.len() && valid_moves@[j].from == from
                        && valid_moves@[j].to == to);
            }
        }

        valid_moves
    }
}

impl Clone for Board {
    /// The clone observably matches the original: same placement, caches,
    /// rights, en-passant target and move markers.
    fn clone(&self) -> (r: Self)
        ensures
            board_equiv(r, *self),
    {
        let mut pieces: Vec<Option<Piece>> = Vec::new();
        let mut i: usize = 0;

        while i < self.state.pieces.len()
            invariant
                i <= self.state.pieces@.len(),
                pieces@.len() == i,
                forall|j: int|
                    0 <= j < i ==> (match (#[trigger] pieces@[j], self.state.pieces@[j]) {
                        (Some(x), Some(y)) => x.equiv(y),
                        (None, None) => true,
                        _ => false,
                    }),
            decreases self.state.pieces@.len() - i,
        {
            let entry: Option<Piece> = match &self.state.pieces[i] {
                Some(p) => Some(p.clone()),
                None => None,
            };

            pieces.push(entry);
            i = i + 1;
        }

        let mut highlighted_squares: Vec<Square> = Vec::new();
        let mut j: usize = 0;

        while j < self.highlighted_squares.len()
            invariant
                j <= self.highlighted_squares@.len(),
                highlighted_squares@ == self.highlighted_squares@.take(j as int),
            decreases self.highlighted_squares@.len() - j,
        {
            highlighted_squares.push(self.highlighted_squares[j]);
            proof {
                assert(highlighted_squares@ =~= self.highlighted_squares@.take(j + 1));
            }
            j = j + 1;
        }
        proof {
            assert(highlighted_squares@ =~= self.highlighted_squares@);
        }

        Board {
            highlighted_squares,
            state: BoardState {
                white_castling_rights: self.state.white_castling_rights,
                black_castling_rights: self.state.black_castling_rights,
                en_passant_square: self.state.en_passant_square,
                pieces,
            },
            last_move: self.last_move,
        }
    }
}

/// 64 empty squares.
pub open spec fn empty_occ() -> Seq<Option<PieceKind>> {
    Seq::new(64, |i: int| None)
}

/// The empty board with full castling rights and no en-passant target.
pub open spec fn empty_position() -> Position {
    Position {
        occ: empty_occ(),
        white_rights: CastlingRights { short_castle: true, long_castle: true },
        black_rights: CastlingRights { short_castle: true, long_castle: true },
        en_passant: None,
    }
}

impl Default for Board {
    /// An empty, fully-righted board.
    fn default() -> (r: Self)
        ensures
            r.wf(),
            r.pos() == empty_position(),
            r.highlighted_squares@ == Seq::<Square>::empty(),
            r.last_move is None,
    {
        let mut pieces: Vec<Option<Piece>> = Vec::new();
        let mut i: usize = 0;

        while i < 64
            invariant
                i <= 64,
                pieces@.len() == i,
                forall|j: int| 0 <= j < i ==> pieces@[j] is None,
            decreases 64 - i,
        {
            pieces.push(None);
            i = i + 1;
        }

        let r = Board {
            highlighted_squares: Vec::new(),
            state: BoardState {
                white_castling_rights: CastlingRights { short_castle: true, long_castle: true },
                black_castling_rights: CastlingRights { short_castle: true, long_castle: true },
                en_passant_square: None,
                pieces,
            },
            last_move: None,
        };

        proof {
            assert(r.pos().occ =~= empty_occ());
            assert(r.pos() =~= empty_position());
        }

        r
    }
}

} // verus!
