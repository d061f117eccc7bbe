//! Game model: turn sequencing, the reversible history stack, draw and
//! takeback offers, and terminal-result detection.

use vstd::prelude::*;

use crate::board::{
    apply_move, attempt_error, has_legal_move, in_check, initial_position, move_record,
    piece_count, spec_hash, spec_mover, Board, Position,
};
use crate::moves::{HistoryMove, MoveFailureReason, NewMove};
use crate::pieces::Type;
use crate::square::{Color, Square};

verus! {

/// How a game stands: still ongoing, won by checkmate, resignation or
/// time, or drawn for one of the four draw reasons.
#[derive(Eq, PartialEq, Copy, Clone, Debug, Hash, Structural)]
pub enum GameResult {
    Ongoing,
    CheckMate(Color),
    Resignation(Color),
    OutOfTime(Color),
    Stalemated,
    InsufficientMaterial,
    ThreefoldRepetition,
    FiftyMoves,
    DrawAgreed,
}

impl GameResult {
    /// The winner: the opposite of whoever is mated, resigned or timed
    /// out; draws and ongoing games have none.
    pub open spec fn spec_winner(self) -> Option<Color> {
        match self {
            GameResult::CheckMate(c) => Some(c.spec_opposite()),
            GameResult::Resignation(c) => Some(c.spec_opposite()),
            GameResult::OutOfTime(c) => Some(c.spec_opposite()),
            _ => None,
        }
    }

    pub fn get_winner(&self) -> (r: Option<Color>)
        ensures
            r == self.spec_winner(),
    {
        match self {
            GameResult::CheckMate(color) | GameResult::Resignation(color)
            | GameResult::OutOfTime(color) => Some(color.get_opposite()),
            _ => None,
        }
    }

    /// The human-readable account of this result.
    pub open spec fn spec_message(self) -> Seq<char> {
        match self {
            GameResult::Ongoing => "The game is still ongoing."@,
            GameResult::CheckMate(c) => if c == Color::White {
                "White is checkmated."@
            } else {
                "Black is checkmated."@
            },
            GameResult::Resignation(c) => if c == Color::White {
                "White has resigned."@
            } else {
                "Black has resigned."@
            },
            GameResult::OutOfTime(c) => if c == Color::White {
                "White has resigned."@
            } else {
                "Black has resigned."@
            },
            GameResult::Stalemated => "Stalemate."@,
            GameResult::InsufficientMaterial => "Insufficient material. "@,
            GameResult::ThreefoldRepetition => "Three-fold repetition."@,
            GameResult::FiftyMoves => "50-move rule violation."@,
            GameResult::DrawAgreed => "Both players agreed to a draw. "@,
        }
    }

    pub fn pretty_message(&self) -> (r: &'static str)
        ensures
            r@ == self.spec_message(),
    {
        match self {
            GameResult::Ongoing => "The game is still ongoing.",
            GameResult::CheckMate(color) => if *color == Color::White {
                "White is checkmated."
            } else {
                "Black is checkmated."
            },
            GameResult::Resignation(color) => if *color == Color::White {
                "White has resigned."
            } else {
                "Black has resigned."
            },
            GameResult::OutOfTime(color) => if *color == Color::White {
                "White has resigned."
            } else {
                "Black has resigned."
            },
            GameResult::Stalemated => "Stalemate.",
            GameResult::InsufficientMaterial => "Insufficient material. ",
            GameResult::ThreefoldRepetition => "Three-fold repetition.",
            GameResult::FiftyMoves => "50-move rule violation.",
            GameResult::DrawAgreed => "Both players agreed to a draw. ",
        }
    }
}

/// An offer list holds at most one entry per color.
pub open spec fn offers_ok(s: Seq<Color>) -> bool {
    s.len() <= 2 && (s.len() == 2 ==> s[0] != s[1])
}

/// One moment of a game: the board, the half-move clock (plies since the
/// last pawn move or capture), whose turn it is, the pending offers, and
/// the position hash filled in when the state is archived.
pub struct GameState {
    pub board: Board,
    pub half_move_clock: u32,
    pub current_turn: Color,
    pub draw_offers: Vec<Color>,
    pub takeback_offers: Vec<Color>,
    pub board_hash: u64,
}

impl GameState {
    pub open spec fn wf(self) -> bool {
        &&& self.board.wf()
        &&& offers_ok(self.draw_offers@)
        &&& offers_ok(self.takeback_offers@)
    }

    pub fn new(board: Board, half_move_clock: u32, current_turn: Color) -> (r: Self)
        ensures
            r.board == board,
            r.half_move_clock == half_move_clock,
            r.current_turn == current_turn,
            r.draw_offers@ == Seq::<Color>::empty(),
            r.takeback_offers@ == Seq::<Color>::empty(),
            r.board_hash == 0,
    {
        Self {
            board,
            half_move_clock,
            current_turn,
            draw_offers: Vec::new(),
            takeback_offers: Vec::new(),
            board_hash: 0,
        }
    }
}

/// A game state as it is pushed onto the history: the same moment with
/// its position hash filled in.
pub open spec fn archived(s: GameState) -> GameState {
    GameState { board_hash: spec_hash(s.board.pos()), ..s }
}

/// How many of the first n archived states stand for position p.
pub open spec fn repetition_count(hist: Seq<GameState>, p: Position, n: int) -> int
    decreases n,
{
    if n <= 0 {
        0
    } else {
        repetition_count(hist, p, n - 1) + if hist[n - 1].board.pos() == p {
            1int
        } else {
            0int
        }
    }
}

/// A repetition count over n states lies between 0 and n.
pub proof fn lemma_repetition_count_bound(hist: Seq<GameState>, p: Position, n: int)
    requires
        0 <= n,
    ensures
        0 <= repetition_count(hist, p, n) <= n,
    decreases n,
{
    if n > 0 {
        lemma_repetition_count_bound(hist, p, n - 1);
    }
}

/// One side retains mating force: a rook, queen or pawn, two bishops,
/// three knights, or bishop and knight together.
pub open spec fn sufficient_material(p: Position, c: Color) -> bool {
    ||| piece_count(p, c, Type::Rook) != 0
    ||| piece_count(p, c, Type::Queen) != 0
    ||| piece_count(p, c, Type::Pawn) != 0
    ||| piece_count(p, c, Type::Bishop) >= 2
    ||| piece_count(p, c, Type::Knight) >= 3
    ||| (piece_count(p, c, Type::Bishop) >= 1 && piece_count(p, c, Type::Knight) >= 1)
}

/// Neither side retains mating force.
pub open spec fn insufficient_material(p: Position) -> bool {
    !sufficient_material(p, Color::White) && !sufficient_material(p, Color::Black)
}

/// The terminal result of the position p with `to_move` to move, given
/// the archived history and the half-move clock, in fixed priority order:
/// no legal move decides mate or stalemate; then material; then a third
/// occurrence of the position; then the fifty-move rule.
pub open spec fn terminal_result(
    p: Position,
    to_move: Color,
    hist: Seq<GameState>,
    clock: u32,
) -> Option<GameResult> {
    if !has_legal_move(p, to_move) {
        if in_check(p, to_move) {
            Some(GameResult::CheckMate(to_move))
        } else {
            Some(GameResult::Stalemated)
        }
    } else if insufficient_material(p) {
        Some(GameResult::InsufficientMaterial)
    } else if 1 + repetition_count(hist, p, hist.len() as int) >= 3 {
        Some(GameResult::ThreefoldRepetition)
    } else if clock >= 50 {
        Some(GameResult::FiftyMoves)
    } else {
        None
    }
}

/// A game: the current state, the stack of prior states (for takeback
/// and repetition counting), and the terminal result once one is set.
pub struct Game {
    pub state: GameState,
    pub state_history: Vec<GameState>,
    pub result: Option<GameResult>,
}

/// The failure a move request meets before the board sees it: the game
/// is over, the origin is empty, or the piece is not the mover's.
pub open spec fn make_move_precheck(g: Game, m: NewMove) -> Option<MoveFailureReason> {
    if g.result is Some {
        Some(MoveFailureReason::GameEnded)
    } else if g.state.board.pos().at(m.from) is None {
        Some(MoveFailureReason::NoPiece)
    } else if spec_mover(g.state.board.pos(), m.from).color != g.state.current_turn {
        Some(MoveFailureReason::NotYourPiece)
    } else {
        None
    }
}

/// The failure, if any, of a whole move submission, in the order the
/// checks run; None means the move commits.
pub open spec fn make_move_error(g: Game, m: NewMove) -> Option<MoveFailureReason> {
    match make_move_precheck(g, m) {
        Some(e) => Some(e),
        None => match attempt_error(g.state.board.pos(), m) {
            Some(e) => Some(e),
            None => if in_check(apply_move(g.state.board.pos(), m), g.state.current_turn) {
                Some(MoveFailureReason::InCheckAfterTurn)
            } else {
                None
            },
        },
    }
}

/// The half-move clock after a committed move: zero after a capture or a
/// pawn move, one more otherwise.
pub open spec fn next_clock(g: Game, m: NewMove) -> u32 {
    if move_record(g.state.board.pos(), m).capture || spec_mover(
        g.state.board.pos(),
        m.from,
    ).piece_type == Type::Pawn {
        0u32
    } else {
        (g.state.half_move_clock + 1) as u32
    }
}

/// What a committed move leaves behind: the pre-move state is archived
/// onto the history, the new position is adopted with the turn flipped,
/// the offers cleared and the clock advanced, and the terminal result is
/// evaluated against the new position.
pub open spec fn move_committed(pre: Game, post: Game, m: NewMove) -> bool {
    &&& make_move_error(pre, m) is None
    &&& post.state.board.pos() == apply_move(pre.state.board.pos(), m)
    &&& post.state.board.last_move == Some(move_record(pre.state.board.pos(), m))
    &&& post.state.board.highlighted_squares@ == seq![m.from, m.to]
    &&& post.state.current_turn == pre.state.current_turn.spec_opposite()
    &&& post.state.half_move_clock == next_clock(pre, m)
    &&& post.state.draw_offers@ == Seq::<Color>::empty()
    &&& post.state.takeback_offers@ == Seq::<Color>::empty()
    &&& post.state_history@ == pre.state_history@.push(archived(pre.state))
    &&& post.result == terminal_result(
        apply_move(pre.state.board.pos(), m),
        pre.state.current_turn.spec_opposite(),
        post.state_history@,
        next_clock(pre, m),
    )
}

/// What a successful takeback leaves behind: the last archived state is
/// popped and becomes current again (its piece caches recomputed), and
/// the game remains ongoing.
pub open spec fn takeback_applied(pre: Game, post: Game) -> bool {
    &&& pre.state_history@.len() > 0
    &&& post.state_history@ == pre.state_history@.drop_last()
    &&& {
        let last = pre.state_history@.last();
        &&& post.state.board.pos() == last.board.pos()
        &&& post.state.board.last_move == last.board.last_move
        &&& post.state.board.highlighted_squares@ == last.board.highlighted_squares@
        &&& post.state.half_move_clock == last.half_move_clock
        &&& post.state.current_turn == last.current_turn
        &&& post.state.draw_offers@ == last.draw_offers@
        &&& post.state.takeback_offers@ == last.takeback_offers@
        &&& post.state.board_hash == last.board_hash
    }
    &&& post.result is None
}

impl Game {
    /// Archived states carry their own position hash, remain well-formed
    /// and stem from ongoing positions, so their clocks are below fifty.
    pub open spec fn history_ok(self) -> bool {
        forall|i: int|
            0 <= i < self.state_history@.len() ==> (#[trigger] self.state_history@[i]).wf()
                && self.state_history@[i].board_hash == spec_hash(
                self.state_history@[i].board.pos(),
            ) && self.state_history@[i].half_move_clock < 50
    }

    pub open spec fn wf(self) -> bool {
        &&& self.state.wf()
        &&& self.result is None ==> self.state.half_move_clock < 50
        &&& self.history_ok()
    }

    /// A fresh game in the standard opening position, White to move.
    pub fn new() -> (r: Self)
        ensures
            r.wf(),
            r.state.board.pos() == initial_position(),
            r.state.board.last_move is None,
            r.state.board.highlighted_squares@ == Seq::<Square>::empty(),
            r.state.half_move_clock == 0,
            r.state.current_turn == Color::White,
            r.state.draw_offers@ == Seq::<Color>::empty(),
            r.state.takeback_offers@ == Seq::<Color>::empty(),
            r.state_history@ == Seq::<GameState>::empty(),
            r.result is None,
    {
        Self::default()
    }

    /// Returns the game to the standard opening position: standard board,
    /// zero clock, White to move, no offers, no history, no result.
    pub fn reset(&mut self)
        requires
            old(self).wf(),
        ensures
            final(self).wf(),
            final(self).state.board.pos() == initial_position(),
            final(self).state.board.last_move is None,
            final(self).state.board.highlighted_squares@ == Seq::<Square>::empty(),
            final(self).state.half_move_clock == 0,
            final(self).state.current_turn == Color::White,
            final(self).state.draw_offers@ == Seq::<Color>::empty(),
            final(self).state.takeback_offers@ == Seq::<Color>::empty(),
            final(self).state_history@ == Seq::<GameState>::empty(),
            final(self).result is None,
    {
        self.state.board.setup_default_board();
        self.state.half_move_clock = 0;
        self.state.current_turn = Color::White;
        self.state.draw_offers = Vec::new();
        self.state.takeback_offers = Vec::new();

        self.state_history = Vec::new();
        self.result = None;
    }

    /// Pops the history back onto the current state, recomputing every
    /// piece's candidate cache; fails once the game has ended or when no
    /// previous position exists.
    pub fn takeback_move(&mut self) -> (r: Result<(), MoveFailureReason>)
        requires
            old(self).wf(),
        ensures
            final(self).wf(),
            old(self).result is Some ==> r == Err::<(), MoveFailureReason>(
                MoveFailureReason::GameEnded,
            ) && *final(self) == *old(self),
            old(self).result is None && old(self).state_history@.len() == 0 ==> r == Err::<
                (),
                MoveFailureReason,
            >(MoveFailureReason::NoPreviousPositions) && *final(self) == *old(self),
            old(self).result is None && old(self).state_history@.len() > 0 ==> r == Ok::<
                (),
                MoveFailureReason,
            >(()) && takeback_applied(*old(self), *final(self)),
    {
        if self.result.is_some() {
            return Err(MoveFailureReason::GameEnded);
        }

        if self.state_history.len() == 0 {
            return Err(MoveFailureReason::NoPreviousPositions);
        }

        match self.state_history.pop() {
            Some(state) => {
                self.state = state;
                self.state.board.recalculate_all_pieces_movements();

                Ok(())
            },
            None => Err(MoveFailureReason::NoPreviousPositions),
        }
    }

    /// Ends the game as agreed drawn; fails once the game has ended.
    pub fn draw(&mut self) -> (r: Result<GameResult, MoveFailureReason>)
        requires
            old(self).wf(),
        ensures
            final(self).wf(),
            old(self).result is Some ==> r == Err::<GameResult, MoveFailureReason>(
                MoveFailureReason::GameEnded,
            ) && *final(self) == *old(self),
            old(self).result is None ==> r == Ok::<GameResult, MoveFailureReason>(
                GameResult::DrawAgreed,
            ) && *final(self) == (Game { result: Some(GameResult::DrawAgreed), ..*old(self) }),
    {
        if self.result.is_some() {
            return Err(MoveFailureReason::GameEnded);
        }

        self.result = Some(GameResult::DrawAgreed);
        Ok(GameResult::DrawAgreed)
    }

    /// Ends the game by the given side's resignation; fails once the game
    /// has ended.
    pub fn resign(&mut self, color: Color) -> (r: Result<GameResult, MoveFailureReason>)
        requires
            old(self).wf(),
        ensures
            final(self).wf(),
            old(self).result is Some ==> r == Err::<GameResult, MoveFailureReason>(
                MoveFailureReason::GameEnded,
            ) && *final(self) == *old(self),
            old(self).result is None ==> r == Ok::<GameResult, MoveFailureReason>(
                GameResult::Resignation(color),
            ) && *final(self) == (Game {
                result: Some(GameResult::Resignation(color)),
                ..*old(self)
            }),
    {
        if self.result.is_some() {
            return Err(MoveFailureReason::GameEnded);
        }

        self.result = Some(GameResult::Resignation(color));
        Ok(GameResult::Resignation(color))
    }
}

/// Whether a color has already made an offer on this list.
fn offers_contain(offers: &Vec<Color>, color: Color) -> (r: bool)
    ensures
        r == offers@.contains(color),
{
    let mut i: usize = 0;

    while i < offers.len()
        invariant
            i <= offers@.len(),
            forall|j: int| 0 <= j < i ==> offers@[j] != color,
        decreases offers@.len() - i,
    {
        if offers[i] == color {
            return true;
        }
        i = i + 1;
    }

    false
}

/// Everything a game holds apart from its offer lists and result.
pub open spec fn same_game_core(pre: Game, post: Game) -> bool {
    &&& post.state.board == pre.state.board
    &&& post.state.half_move_clock == pre.state.half_move_clock
    &&& post.state.current_turn == pre.state.current_turn
    &&& post.state.board_hash == pre.state.board_hash
    &&& post.state_history == pre.state_history
}

impl Game {
    /// Records a draw offer; a repeated offer by the same color is a
    /// no-op, and once both colors have offered, the draw executes and
    /// the offer list empties.
    pub fn offer_draw(&mut self, color: Color) -> (r: Result<GameResult, MoveFailureReason>)
        requires
            old(self).wf(),
        ensures
            final(self).wf(),
            old(self).result is Some ==> r == Err::<GameResult, MoveFailureReason>(
                MoveFailureReason::GameEnded,
            ) && *final(self) == *old(self),
            old(self).result is None && old(self).state.draw_offers@.contains(color) ==> r == Ok::<
                GameResult,
                MoveFailureReason,
            >(GameResult::Ongoing) && *final(self) == *old(self),
            old(self).result is None && !old(self).state.draw_offers@.contains(color) ==> {
                &&& same_game_core(*old(self), *final(self))
                &&& final(self).state.takeback_offers == old(self).state.takeback_offers
                &&& if old(self).state.draw_offers@.len() == 0 {
                    &&& r == Ok::<GameResult, MoveFailureReason>(GameResult::Ongoing)
                    &&& final(self).state.draw_offers@ == old(self).state.draw_offers@.push(color)
                    &&& final(self).result is None
                } else {
                    &&& r == Ok::<GameResult, MoveFailureReason>(GameResult::DrawAgreed)
                    &&& final(self).state.draw_offers@ == Seq::<Color>::empty()
                    &&& final(self).result == Some(GameResult::DrawAgreed)
                }
            },
    {
        if self.result.is_some() {
            return Err(MoveFailureReason::GameEnded);
        }

        if offers_contain(&self.state.draw_offers, color) {
            return Ok(GameResult::Ongoing);
        }

        self.state.draw_offers.push(color);

        if self.state.draw_offers.len() == 2 {
            self.state.draw_offers = Vec::new();
            return self.draw();
        }

        Ok(GameResult::Ongoing)
    }

    /// Records a takeback offer; a repeated offer by the same color is a
    /// no-op, and once both colors have offered, the takeback executes
    /// and the offer list empties. Ok(true) reports a consummated
    /// takeback, Ok(false) a pending offer.
    pub fn offer_takeback(&mut self, color: Color) -> (r: Result<bool, MoveFailureReason>)
        requires
            old(self).wf(),
        ensures
            final(self).wf(),
            old(self).result is Some ==> r == Err::<bool, MoveFailureReason>(
                MoveFailureReason::GameEnded,
            ) && *final(self) == *old(self),
            old(self).result is None && old(self).state.takeback_offers@.contains(color) ==> r
                == Ok::<bool, MoveFailureReason>(false) && *final(self) == *old(self),
            old(self).result is None && !old(self).state.takeback_offers@.contains(color) && old(
                self,
            ).state.takeback_offers@.len() == 0 ==> {
                &&& r == Ok::<bool, MoveFailureReason>(false)
                &&& same_game_core(*old(self), *final(self))
                &&& final(self).state.draw_offers == old(self).state.draw_offers
                &&& final(self).state.takeback_offers@ == old(self).state.takeback_offers@.push(
                    color,
                )
                &&& final(self).result is None
            },
            old(self).result is None && !old(self).state.takeback_offers@.contains(color) && old(
                self,
            ).state.takeback_offers@.len() == 1 ==> {
                if old(self).state_history@.len() == 0 {
                    &&& r == Err::<bool, MoveFailureReason>(MoveFailureReason::NoPreviousPositions)
                    &&& same_game_core(*old(self), *final(self))
                    &&& final(self).state.draw_offers == old(self).state.draw_offers
                    &&& final(self).state.takeback_offers@ == Seq::<Color>::empty()
                    &&& final(self).result is None
                } else {
                    &&& r == Ok::<bool, MoveFailureReason>(true)
                    &&& takeback_applied(*old(self), *final(self))
                }
            },
    {
        if self.result.is_some() {
            return Err(MoveFailureReason::GameEnded);
        }

        if offers_contain(&self.state.takeback_offers, color) {
            return Ok(false);
        }

        self.state.takeback_offers.push(color);

        if self.state.takeback_offers.len() == 2 {
            self.state.takeback_offers = Vec::new();

            match self.takeback_move() {
                Ok(_) => {
                    return Ok(true);
                },
                Err(e) => {
                    return Err(e);
                },
            }
        }

        Ok(false)
    }

    /// Whether one side retains mating force: a rook, queen or pawn, two
    /// bishops, three knights, or bishop and knight together.
    pub fn validate_has_sufficient_material(&self, color: Color) -> (r: bool)
        requires
            self.state.wf(),
        ensures
            r == sufficient_material(self.state.board.pos(), color),
    {
        let count = self.state.board.get_pieces_count_by_type(color);

        if count.rook != 0 || count.queen != 0 || count.pawn != 0 {
            return true;
        }

        if count.bishop >= 2 || count.knight >= 3 {
            return true;
        }

        count.bishop >= 1 && count.knight >= 1
    }

    /// Whether neither side retains mating force.
    pub fn check_for_insufficient_material(&self) -> (r: bool)
        requires
            self.state.wf(),
        ensures
            r == insufficient_material(self.state.board.pos()),
    {
        !self.validate_has_sufficient_material(Color::White)
            && !self.validate_has_sufficient_material(Color::Black)
    }

    /// Whether the current position has now occurred at least three
    /// times: once as the current state, and again for every archived
    /// state standing for the same position. The stored hash serves as a
    /// fast pre-filter; equal positions always hash equally.
    pub fn check_for_threefold_repetition(&self) -> (r: bool)
        requires
            self.state.wf(),
            self.history_ok(),
        ensures
            r == (1 + repetition_count(
                self.state_history@,
                self.state.board.pos(),
                self.state_history@.len() as int,
            ) >= 3),
    {
        let current_hash = self.state.board.state.get_hash();
        let mut positions_count: u8 = 1;
        let mut i: usize = 0;

        while i < self.state_history.len()
            invariant
                self.state.wf(),
                self.history_ok(),
                i <= self.state_history@.len(),
                1 <= positions_count <= 3,
                current_hash == spec_hash(self.state.board.pos()),
                positions_count as int == {
                    let c = 1 + repetition_count(
                        self.state_history@,
                        self.state.board.pos(),
                        i as int,
                    );
                    if c < 3 {
                        c
                    } else {
                        3int
                    }
                },
            decreases self.state_history@.len() - i,
        {
            let entry = &self.state_history[i];

            if entry.board_hash == current_hash {
                if entry.board.state.state_equals(&self.state.board.state) {
                    if positions_count < 3 {
                        positions_count = positions_count + 1;
                    }
                }
            } else {
                proof {
                    // Differing hashes rule the position out: the hash is
                    // a function of the position alone.
                    if self.state_history@[i as int].board.pos() == self.state.board.pos() {
                        assert(false);
                    }
                }
            }

            proof {
                lemma_repetition_count_bound(
                    self.state_history@,
                    self.state.board.pos(),
                    i as int,
                );
            }
            i = i + 1;
        }

        positions_count >= 3
    }

    /// Submits a move for the side to move. On any failure the game is
    /// left untouched and the exact reason is reported; on success the
    /// pre-move state is archived, the move commits, and the terminal
    /// conditions are evaluated against the new position.
    pub fn make_move(&mut self, m: NewMove) -> (r: Result<HistoryMove, MoveFailureReason>)
        requires
            old(self).wf(),
        ensures
            final(self).wf(),
            r matches Err(e) ==> Some(e) == make_move_error(*old(self), m) && *final(self) == *old(
                self,
            ),
            r matches Ok(hm) ==> hm == move_record(old(self).state.board.pos(), m)
                && move_committed(*old(self), *final(self), m),
    {
        if self.result.is_some() {
            return Err(MoveFailureReason::GameEnded);
        }

        // The mover must exist and belong to the side to move, judged on
        // the current board before anything is attempted.
        let piece_color = match self.state.board.get_piece(m.from) {
            Some(piece) => piece.color,
            None => {
                return Err(MoveFailureReason::NoPiece);
            },
        };

        if piece_color != self.state.current_turn {
            return Err(MoveFailureReason::NotYourPiece);
        }

        // Attempt the move on a clone; a failure leaves this game as it
        // was.
        let mut new_board = self.state.board.clone();

        proof {
            crate::board::lemma_board_equiv(new_board, self.state.board);
        }

        match new_board.make_move_if_valid(m) {
            Ok(_) => {},
            Err(e) => {
                return Err(e);
            },
        }

        if new_board.is_in_check(self.state.current_turn) {
            return Err(MoveFailureReason::InCheckAfterTurn);
        }

        // Commit: archive the pre-move state with its hash and adopt the
        // new position with the turn flipped and the offers cleared.
        let last_move = new_board.last_move.unwrap();

        let new_clock: u32 = if last_move.capture || last_move.piece_type == Type::Pawn {
            0
        } else {
            self.state.half_move_clock + 1
        };

        let next_turn = self.state.current_turn.get_opposite();
        let previous_hash = self.state.board.state.get_hash();

        let mut previous_state = GameState::new(new_board, new_clock, next_turn);

        core::mem::swap(&mut self.state, &mut previous_state);
        previous_state.board_hash = previous_hash;
        self.state_history.push(previous_state);

        // Evaluate the terminal conditions against the new position, in
        // fixed priority order.
        let moves = self.state.board.get_valid_moves_for(self.state.current_turn);

        if moves.len() == 0 {
            if self.state.board.is_in_check(self.state.current_turn) {
                self.result = Some(GameResult::CheckMate(self.state.current_turn));
            } else {
                self.result = Some(GameResult::Stalemated);
            }
        } else if self.check_for_insufficient_material() {
            self.result = Some(GameResult::InsufficientMaterial);
        } else if self.check_for_threefold_repetition() {
            self.result = Some(GameResult::ThreefoldRepetition);
        } else if self.state.half_move_clock >= 50 {
            self.result = Some(GameResult::FiftyMoves);
        }

        Ok(last_move)
    }
}

impl Default for Game {
    /// A fresh game in the standard opening position, White to move.
    fn default() -> (r: Self)
        ensures
            r.wf(),
            r.state.board.pos() == initial_position(),
            r.state.board.last_move is None,
            r.state.board.highlighted_squares@ == Seq::<Square>::empty(),
            r.state.half_move_clock == 0,
            r.state.current_turn == Color::White,
            r.state.draw_offers@ == Seq::<Color>::empty(),
            r.state.takeback_offers@ == Seq::<Color>::empty(),
            r.state_history@ == Seq::<GameState>::empty(),
            r.result is None,
    {
        let mut new = Game {
            state: GameState::new(Board::new(), 0, Color::White),
            state_history: Vec::new(),
            result: None,
        };

        new.reset();
        new
    }
}

} // verus!
