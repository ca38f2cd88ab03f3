//! Replaying a game and grading the user's moves with an engine.  The
//! engine runs outside the library: the analysis asks for the evaluation of
//! a position, and is handed back the engine's answer.

use vstd::prelude::*;
use crate::analyzer::{
    score_in_range, severity_label, spec_eval_after_move, spec_score_from_side_to_move,
    spec_severity, GameAnalyzer, Severity,
};
use crate::board::{Color, Move, Position};
use crate::chess_io::{play_san, role_from_code, san_of_uci};
use crate::models::{DetectedPuzzle, EngineEvalResponse};
use crate::text::{string_views, to_lowercase, unicode_lowercase};
use crate::chess_io::{color_of_flag, fen_facts, move_of_codes, position_view, san_outcome, spec_position_of, turn_passes, uci_as_san};
use crate::tags::{best_move_outcome, spec_tags, tag_label, TacticalTag};

verus! {

/// The FEN of the standard starting position.
pub open spec fn start_fen() -> Seq<char> {
    "rnbqkbnr/pppppppp/8/8/8/8/PPPPPPPP/RNBQKBNR w KQkq - 0 1"@
}

/// Why a game cannot be analysed for a user.
#[derive(PartialEq, Eq, Structural, Clone, Copy, Debug)]
pub enum AnalysisError {
    /// The user played neither side.
    NotAPlayer,
}

/// The label of a side: "white" or "black".
pub open spec fn color_label(c: Color) -> Seq<char> {
    match c {
        Color::White => "white"@,
        Color::Black => "black"@,
    }
}

fn color_label_exec(c: Color) -> (r: String)
    ensures
        r@ == color_label(c),
{
    match c {
        Color::White => "white".to_string(),
        Color::Black => "black".to_string(),
    }
}

/// The move given in SAN is legal on the position with this FEN, its UCI
/// string is `uci`, and it does not checkmate (as `shakmaty` reports the
/// position after it).
pub open spec fn played_without_mate(fen: Seq<char>, san: Seq<char>, uci: Seq<char>) -> bool {
    match san_outcome(fen, san) {
        Some(o) => o.5 == uci && match fen_facts(o.6) {
            Some(ff) => !ff.4,
            None => false,
        },
        None => false,
    }
}

/// A recorded puzzle is a real error by the user: made from move 2 on by
/// the user's side with a move that does not deliver mate, losing at least
/// 60 centipawns and graded accordingly, with a best move other than the
/// one played, a solution of at most three plies and a refutation of at
/// most two.
pub open spec fn puzzle_sound(p: DetectedPuzzle, user: Color) -> bool {
    &&& p.move_number >= 2
    &&& played_without_mate(p.initial_fen@, p.blunder_move_san@, p.blunder_move_uci@)
    &&& p.player_color@ == color_label(user)
    &&& spec_severity(p.eval_before as int, p.eval_after_blunder as int) matches Some(s) && p.blunder_severity@
        == severity_label(s)
    &&& p.eval_before - p.eval_after_blunder >= 60
    &&& p.eval_after_best == p.eval_before
    &&& p.best_move_uci@.len() > 0
    &&& p.best_move_uci@ != p.blunder_move_uci@
    &&& p.continuation_uci@.len() <= 3
    &&& p.blunder_continuation_uci@.len() <= 2
}

/// The engine evaluations that the analysis asks for.
pub struct EvalRequest {
    /// The position to evaluate.
    pub fen: String,
    /// Whether this is the position after the user's move (the second
    /// evaluation of a ply) rather than before it.
    pub after_move: bool,
}

/// A user move under examination.
pub struct PlyContext {
    pub pos: Position,
    pub played: Move,
    pub played_san: String,
    pub played_uci: String,
    pub after: Position,
    pub move_number: i32,
}

pub enum Stage {
    /// No evaluation outstanding.
    Idle,
    /// Waiting for the evaluation of the position before the user's move.
    AwaitBefore(PlyContext),
    /// Waiting for the evaluation of the position after it.
    AwaitAfter(PlyContext, EngineEvalResponse),
}

/// The state of a game's analysis.
pub struct GameAnalysis {
    pub user_color: Color,
    pub opening: Option<String>,
    pub moves: Vec<String>,
    pub ply: usize,
    pub fen: String,
    pub puzzles: Vec<DetectedPuzzle>,
    pub stage: Stage,
    pub done: bool,
    /// The ply at which each puzzle was recorded.
    pub puzzle_plies: Ghost<Seq<int>>,
    /// The parity of the plies on which the user moves, once one was seen.
    pub user_parity: Ghost<Option<int>>,
}

/// The grade of the user's move from the two evaluations: the evaluation
/// before (from the user's side), the evaluation after, and the grade.
pub open spec fn spec_judgement(
    before: EngineEvalResponse,
    after_is_checkmate: bool,
    after_is_draw: bool,
    after: EngineEvalResponse,
) -> (int, int, Option<Severity>) {
    let b = spec_score_from_side_to_move(before.score_cp, before.mate_in);
    let a = spec_eval_after_move(after_is_checkmate, after_is_draw, after.score_cp, after.mate_in);
    (b, a, spec_severity(b, a))
}

/// At most the first `n` of a list of moves.
pub open spec fn first_moves(pv: Seq<String>, n: int) -> Seq<Seq<char>> {
    string_views(pv).take(if pv.len() < n { pv.len() as int } else { n })
}

/// The puzzle that a graded move makes, as `judge` builds it: `None` where
/// a score lies outside the foldable range or the move lost less than 60
/// centipawns; else the puzzle at the position before the move, with the
/// engine's best move (in SAN where it can be read), the two evaluations,
/// up to three moves of the best line and two of the refutation, the
/// grade, the game's opening, and the tags of the missed move.
pub open spec fn judged(
    ctx: PlyContext,
    before: EngineEvalResponse,
    after: EngineEvalResponse,
    opening: Option<String>,
    user: Color,
    r: Option<DetectedPuzzle>,
) -> bool {
    let is_draw = ctx.after.is_stalemate || ctx.after.is_insufficient_material;
    let (b, a, sev) = spec_judgement(before, ctx.after.is_checkmate, is_draw, after);
    if !score_in_range(before.score_cp, before.mate_in) || !score_in_range(after.score_cp, after.mate_in)
        || sev is None {
        r is None
    } else {
        r matches Some(p) && {
            &&& p.initial_fen@ == ctx.pos.fen@
            &&& p.move_number == ctx.move_number
            &&& p.player_color@ == color_label(user)
            &&& p.blunder_move_san@ == ctx.played_san@
            &&& p.blunder_move_uci@ == ctx.played_uci@
            &&& p.best_move_uci@ == before.best_move@
            &&& p.best_move_san@ == match uci_as_san(ctx.pos.fen@, before.best_move@) {
                Some(san) => san,
                None => before.best_move@,
            }
            &&& p.eval_before == b
            &&& p.eval_after_blunder == a
            &&& p.eval_after_best == b
            &&& string_views(p.continuation_uci@) == (if before.lines@.len() > 0 {
                first_moves(before.lines@[0].pv@, 3)
            } else {
                seq![before.best_move@]
            })
            &&& string_views(p.blunder_continuation_uci@) == (if after.lines@.len() > 0 {
                first_moves(after.lines@[0].pv@, 2)
            } else {
                Seq::empty()
            })
            &&& p.blunder_severity@ == severity_label(sev.unwrap())
            &&& opt_view(p.opening_name) == opt_view(opening)
            &&& exists|best: Option<(Move, Position)>|
                best_move_outcome(ctx.pos, before.best_move@, best) && string_views(p.tactical_tags@)
                    == spec_tags(ctx.pos, best, ctx.played.capture is Some, ctx.move_number as int,
                    severity_label(sev.unwrap()) == "blunder"@).map_values(|t: TacticalTag| tag_label(t))
        }
    }
}

pub open spec fn opt_view(s: Option<String>) -> Option<Seq<char>> {
    match s {
        Some(x) => Some(x@),
        None => None,
    }
}

/// The analysis moved past the ply of `ctx`: the next ply, from the
/// position after the move, with no evaluation outstanding.
pub open spec fn advanced(before: GameAnalysis, after: GameAnalysis, ctx: PlyContext) -> bool {
    &&& after.ply == before.ply + 1
    &&& after.fen@ == ctx.after.fen@
    &&& after.stage is Idle
}

/// The move under examination is the one that `shakmaty` reads from the
/// SAN on the position with this FEN, and leads to the position after it.
pub open spec fn play_outcome_matches(fen: Seq<char>, san: Seq<char>, ctx: PlyContext) -> bool {
    san_outcome(fen, san) matches Some((a, b, c, d, e, u, f)) && ctx.played == move_of_codes(a, b, c, d, e)
        && ctx.played_uci@ == u && ctx.after.fen@ == f
}

/// The move number of the ply with this index, as the analysis counts it:
/// `ply / 2 + 1`, computed in `i32` (with Rust's division, which rounds
/// towards zero).
pub open spec fn move_number_of(ply: int) -> int {
    let x = (ply as i32) as int;
    (if x >= 0 { x / 2 } else { -((-x) / 2) }) + 1
}

/// A ply the analysis examines: the user is to move in the position (as
/// `shakmaty` reports it), from move 2 on, with more than one legal move.
pub open spec fn examined(
    facts: (Seq<Option<(bool, u8)>>, bool, u32, bool, bool, bool, bool, u32),
    ply: int,
    user: Color,
) -> bool {
    color_of_flag(facts.1) == user && move_number_of(ply) >= 2 && facts.7 > 1
}

/// The move can be read and played on the position, and the position after
/// it read back.
pub open spec fn playable(fen: Seq<char>, san: Seq<char>) -> bool {
    &&& fen_facts(fen) is Some
    &&& san_outcome(fen, san) matches Some(o) && fen_facts(o.6) is Some
}

/// Replaying `moves[from..to]` from `fen`, each ply playable and none of
/// them examined: the FEN reached, or `None` where that fails.
pub open spec fn replay_unexamined(fen: Seq<char>, moves: Seq<Seq<char>>, from: int, to: int, user: Color) -> Option<Seq<char>>
    decreases to - from,
{
    if to <= from {
        Some(fen)
    } else {
        match replay_unexamined(fen, moves, from, to - 1, user) {
            Some(f) => if playable(f, moves[to - 1]) && !examined(fen_facts(f).unwrap(), to - 1, user) {
                Some(san_outcome(f, moves[to - 1]).unwrap().6)
            } else {
                None
            },
            None => None,
        }
    }
}

/// The puzzles after adding the one a judgement made, if any.
pub open spec fn with_puzzle(puzzles: Seq<DetectedPuzzle>, p: Option<DetectedPuzzle>) -> Seq<DetectedPuzzle> {
    match p {
        Some(x) => puzzles.push(x),
        None => puzzles,
    }
}

/// The position is the one `shakmaty` reads from its FEN.
pub open spec fn read_from_fen(p: Position) -> bool {
    fen_facts(p.fen@) matches Some(ff) && position_view(p) == spec_position_of(p.fen@, ff)
}

/// A ply under examination as the replay built it: both positions read from
/// their FENs, and the move the one the SAN denotes on the first, leading to
/// the second.
pub open spec fn ctx_sound(ctx: PlyContext) -> bool {
    &&& ctx.pos.wf()
    &&& ctx.after.wf()
    &&& ctx.played.wf()
    &&& read_from_fen(ctx.pos)
    &&& read_from_fen(ctx.after)
    &&& play_outcome_matches(ctx.pos.fen@, ctx.played_san@, ctx)
    &&& turn_passes(ctx.pos.fen@, ctx.after.fen@)
}

/// The side to move in the position with this FEN is the user exactly on
/// the plies of the user's parity.
pub open spec fn parity_tracks_turn(fen: Seq<char>, ply: int, user: Color, parity: Option<int>) -> bool {
    parity matches Some(q) ==> 0 <= q < 2 && (fen_facts(fen) matches Some(ff) ==> (color_of_flag(ff.1) == user
        <==> ply % 2 == q))
}

/// What the record says of one recorded puzzle.
proof fn lemma_recorded_at(g: GameAnalysis, bound: int, i: int)
    requires
        g.puzzles_recorded(bound),
        0 <= i < g.puzzles@.len(),
    ensures
        0 <= g.puzzle_plies@[i] < bound,
        g.user_parity@ == Some(g.puzzle_plies@[i] % 2),
        g.puzzles@[i].move_number as int == move_number_of(g.puzzle_plies@[i]),
{
    assert(g.puzzles@[i] == g.puzzles@[i]);
}

/// The puzzles of one analysis all carry the game's opening, and come in
/// strictly increasing move order (for games of fewer than 2^31 plies,
/// where the move number is `ply / 2 + 1` without wrapping).
pub proof fn law_puzzles_in_move_order(g: GameAnalysis)
    requires
        g.wf(),
    ensures
        forall|i: int| 0 <= i < g.puzzles@.len() ==> opt_view(#[trigger] g.puzzles@[i].opening_name) == opt_view(g.opening),
        g.moves@.len() < 0x8000_0000 ==> forall|i: int, j: int| 0 <= i < j < g.puzzles@.len()
            ==> #[trigger] g.puzzles@[i].move_number < #[trigger] g.puzzles@[j].move_number,
{
    assert forall|i: int| 0 <= i < g.puzzles@.len() implies opt_view(#[trigger] g.puzzles@[i].opening_name) == opt_view(g.opening) by {
        assert(g.puzzles@[i] == g.puzzles@[i]);
    }
    if g.moves@.len() < 0x8000_0000 {
        assert forall|i: int, j: int| 0 <= i < j < g.puzzles@.len() implies
            #[trigger] g.puzzles@[i].move_number < #[trigger] g.puzzles@[j].move_number by {
            lemma_recorded_at(g, g.ply as int, i);
            lemma_recorded_at(g, g.ply as int, j);
            let p = g.puzzle_plies@[i];
            let q = g.puzzle_plies@[j];
            assert(p < q);
            assert(p % 2 == q % 2);
            assert(q >= p + 2);
            assert((p as i32) as int == p);
            assert((q as i32) as int == q);
        }
    }
}

impl GameAnalysis {
    /// The puzzles recorded so far: each sound, with the game's opening,
    /// recorded at a ply below `bound` of the user's parity, in increasing
    /// ply order, numbered by that ply.
    pub open spec fn puzzles_recorded(&self, bound: int) -> bool {
        let plies = self.puzzle_plies@;
        &&& plies.len() == self.puzzles@.len()
        &&& forall|i: int| 0 <= i < self.puzzles@.len() ==> puzzle_sound(#[trigger] self.puzzles@[i], self.user_color)
        &&& forall|i: int| #![trigger self.puzzles@[i]] 0 <= i < self.puzzles@.len() ==> {
            &&& opt_view(self.puzzles@[i].opening_name) == opt_view(self.opening)
            &&& self.puzzles@[i].move_number as int == move_number_of(plies[i])
            &&& 0 <= plies[i] < bound
            &&& self.user_parity@ == Some(plies[i] % 2)
        }
        &&& forall|i: int, j: int| 0 <= i < j < plies.len() ==> #[trigger] plies[i] < #[trigger] plies[j]
    }

    pub open spec fn wf(&self) -> bool {
        &&& self.ply <= self.moves@.len()
        &&& self.puzzles_recorded(self.ply as int)
        &&& parity_tracks_turn(self.fen@, self.ply as int, self.user_color, self.user_parity@)
        &&& match self.stage {
            Stage::Idle => true,
            Stage::AwaitBefore(ctx) => !self.done && self.ply < self.moves@.len() && ctx_sound(ctx)
                && ctx.move_number >= 2 && ctx.pos.fen@ == self.fen@ && ctx.pos.turn == self.user_color
                && ctx.pos.legal_move_count > 1 && ctx.played_san@ == self.moves@[self.ply as int]@
                && ctx.move_number as int == move_number_of(self.ply as int)
                && self.user_parity@ == Some(self.ply as int % 2),
            Stage::AwaitAfter(ctx, r) => !self.done && self.ply < self.moves@.len() && ctx_sound(ctx)
                && !ctx.after.is_checkmate && ctx.move_number >= 2 && r.best_move@.len() > 0
                && r.best_move@ != ctx.played_uci@ && ctx.pos.fen@ == self.fen@
                && ctx.pos.turn == self.user_color && ctx.move_number as int == move_number_of(self.ply as int)
                && self.user_parity@ == Some(self.ply as int % 2),
        }
    }

    /// Starts the analysis of a game for the player `target_username`, who
    /// must have played white or black (compared without case).
    pub fn start(pgn: &str, target_username: &str, white_player: &str, black_player: &str) -> (r: Result<GameAnalysis, AnalysisError>)
        ensures
            match r {
                Ok(a) => (unicode_lowercase(white_player@) == unicode_lowercase(target_username@)
                    || unicode_lowercase(black_player@) == unicode_lowercase(target_username@))
                    && a.wf() && a.ply == 0 && a.puzzles@.len() == 0 && !a.done && a.fen@ == start_fen()
                    && a.stage is Idle && (if unicode_lowercase(white_player@) == unicode_lowercase(target_username@) {
                    a.user_color == Color::White
                } else {
                    a.user_color == Color::Black
                }) && crate::text::string_views(a.moves@) == crate::pgn::spec_pgn_moves(pgn@)
                    && (match a.opening {
                    Some(o) => crate::pgn::spec_opening(pgn@) == Some(o@),
                    None => crate::pgn::spec_opening(pgn@) is None,
                }),
                Err(e) => e == AnalysisError::NotAPlayer && unicode_lowercase(white_player@) != unicode_lowercase(
                    target_username@,
                ) && unicode_lowercase(black_player@) != unicode_lowercase(target_username@),
            },
    {
        let target = to_lowercase(target_username);
        let is_white = to_lowercase(white_player) == target;
        let is_black = to_lowercase(black_player) == target;
        if !is_white && !is_black {
            return Err(AnalysisError::NotAPlayer);
        }
        let user_color = if is_white { Color::White } else { Color::Black };
        let opening = GameAnalyzer::extract_opening(pgn);
        let moves = GameAnalyzer::parse_pgn_moves(pgn);
        Ok(GameAnalysis {
            user_color,
            opening,
            moves,
            ply: 0,
            fen: "rnbqkbnr/pppppppp/8/8/8/8/PPPPPPPP/RNBQKBNR w KQkq - 0 1".to_string(),
            puzzles: Vec::new(),
            stage: Stage::Idle,
            done: false,
            puzzle_plies: Ghost(Seq::empty()),
            user_parity: Ghost(None),
        })
    }

    /// The evaluation the analysis needs next, after replaying the moves
    /// that need none; `None` once the game is exhausted or a move cannot be
    /// read or played.  Recorded puzzles are left as they are.
    pub fn next_request(&mut self) -> (r: Option<EvalRequest>)
        requires
            old(self).wf(),
        ensures
            final(self).wf(),
            final(self).puzzles@ == old(self).puzzles@,
            final(self).user_color == old(self).user_color,
            final(self).ply >= old(self).ply,
            final(self).moves == old(self).moves,
            final(self).opening == old(self).opening,
            old(self).done ==> r is None,
            r is None ==> final(self).done,
            old(self).stage is Idle && !old(self).done ==> replay_unexamined(
                old(self).fen@,
                string_views(old(self).moves@),
                old(self).ply as int,
                final(self).ply as int,
                old(self).user_color,
            ) == Some(final(self).fen@),
            old(self).stage is Idle && !old(self).done && r is None ==> final(self).ply == final(self).moves@.len()
                || !playable(final(self).fen@, final(self).moves@[final(self).ply as int]@),
            r matches Some(q) ==> !final(self).done && match final(self).stage {
                Stage::AwaitBefore(ctx) => !q.after_move && q.fen@ == ctx.pos.fen@ && q.fen@ == final(self).fen@
                    && ctx.pos.turn == final(self).user_color && ctx.pos.legal_move_count > 1
                    && ctx.move_number as int == move_number_of(final(self).ply as int)
                    && ctx.move_number >= 2
                    && ctx.played_san@ == final(self).moves@[final(self).ply as int]@
                    && ctx_sound(ctx),
                Stage::AwaitAfter(ctx, _) => q.after_move && q.fen@ == ctx.after.fen@,
                Stage::Idle => false,
            },
    {
        if self.done {
            return None;
        }
        match &self.stage {
            Stage::AwaitBefore(ctx) => {
                return Some(EvalRequest { fen: ctx.pos.fen.clone(), after_move: false });
            },
            Stage::AwaitAfter(ctx, _) => {
                return Some(EvalRequest { fen: ctx.after.fen.clone(), after_move: true });
            },
            Stage::Idle => {},
        }
        while self.ply < self.moves.len()
            invariant
                self.wf(),
                self.stage is Idle,
                !self.done,
                !old(self).done,
                self.puzzles@ == old(self).puzzles@,
                self.user_color == old(self).user_color,
                self.ply >= old(self).ply,
                self.moves == old(self).moves,
                self.opening == old(self).opening,
                old(self).stage is Idle,
                replay_unexamined(
                    old(self).fen@,
                    string_views(old(self).moves@),
                    old(self).ply as int,
                    self.ply as int,
                    old(self).user_color,
                ) == Some(self.fen@),
            decreases self.moves@.len() - self.ply,
        {
            let ghost mv = string_views(self.moves@);
            assert(mv[self.ply as int] == self.moves@[self.ply as int]@);
            let pos = match Position::from_fen(self.fen.as_str()) {
                Some(p) => p,
                None => {
                    self.done = true;
                    return None;
                },
            };
            let (role, from, to, capture, promotion, played_uci, fen_after) = match play_san(self.fen.as_str(), self.moves[self.ply].as_str()) {
                Some(t) => t,
                None => {
                    self.done = true;
                    return None;
                },
            };
            let after = match Position::from_fen(fen_after.as_str()) {
                Some(p) => p,
                None => {
                    self.done = true;
                    return None;
                },
            };
            let move_number: i32 = (#[verifier::truncate] (self.ply as i32)) / 2 + 1;
            let is_user_turn = pos.turn == self.user_color;
            if is_user_turn && move_number >= 2 && pos.legal_move_count > 1 {
                let played = Move {
                    role: role_from_code(role),
                    from,
                    to,
                    capture: match capture { Some(c) => Some(role_from_code(c)), None => None },
                    promotion: match promotion { Some(c) => Some(role_from_code(c)), None => None },
                };
                let request_fen = self.fen.clone();
                let ctx = PlyContext {
                    pos,
                    played,
                    played_san: self.moves[self.ply].clone(),
                    played_uci,
                    after,
                    move_number,
                };
                assert(ctx.pos.fen@ == request_fen@);
                self.user_parity = Ghost(Some(self.ply as int % 2));
                self.stage = Stage::AwaitBefore(ctx);
                return Some(EvalRequest { fen: request_fen, after_move: false });
            }
            proof {
                assert(move_number as int == move_number_of(self.ply as int));
                assert(!examined(fen_facts(self.fen@).unwrap(), self.ply as int, self.user_color));
                assert(turn_passes(self.fen@, fen_after@));
                if self.user_parity@ is Some {
                    let a = fen_facts(self.fen@).unwrap();
                    let b = fen_facts(fen_after@).unwrap();
                    assert(a.1 != b.1);
                    assert(color_of_flag(a.1) != color_of_flag(b.1));
                }
            }
            let ghost old_ply = self.ply as int;
            self.fen = fen_after;
            self.ply = self.ply + 1;
            proof {
                assert(parity_tracks_turn(self.fen@, self.ply as int, self.user_color, self.user_parity@)) by {
                    if self.user_parity@ is Some {
                        assert((old_ply + 1) % 2 != old_ply % 2);
                        assert(0 <= (old_ply + 1) % 2 < 2 && 0 <= old_ply % 2 < 2);
                    }
                }
                assert(self.puzzles_recorded(self.ply as int));
            }
        }
        self.done = true;
        None
    }

    /// Moves on to the next ply.
    fn advance(&mut self, ctx: PlyContext)
        requires
            old(self).ply < old(self).moves@.len(),
            old(self).puzzles_recorded(old(self).ply + 1),
            ctx_sound(ctx),
            ctx.pos.fen@ == old(self).fen@,
            ctx.pos.turn == old(self).user_color,
            old(self).user_parity@ == Some(old(self).ply as int % 2),
        ensures
            final(self).wf(),
            final(self).stage is Idle,
            final(self).done == old(self).done,
            final(self).puzzles@ == old(self).puzzles@,
            final(self).user_color == old(self).user_color,
            final(self).moves == old(self).moves,
            final(self).opening == old(self).opening,
            final(self).ply == old(self).ply + 1,
            final(self).fen@ == ctx.after.fen@,
            final(self).puzzle_plies == old(self).puzzle_plies,
    {
        let n = self.moves.len();
        assert(self.ply < n);
        self.fen = ctx.after.fen;
        self.ply = self.ply + 1;
        self.stage = Stage::Idle;
    }

    /// Hands the analysis the engine's answer to its last request (`None`
    /// when the engine failed): a failed evaluation skips the ply; a first
    /// evaluation that agrees with the played move, or a move that mates,
    /// ends the ply's examination; a second evaluation grades the move and
    /// records a puzzle when it lost 60 centipawns or more.
    pub fn supply_eval(&mut self, result: Option<EngineEvalResponse>)
        requires
            old(self).wf(),
            !old(self).done,
            !(old(self).stage is Idle),
        ensures
            final(self).wf(),
            !final(self).done,
            final(self).user_color == old(self).user_color,
            final(self).opening == old(self).opening,
            final(self).moves == old(self).moves,
            match old(self).stage {
                Stage::AwaitBefore(ctx) => final(self).puzzles@ == old(self).puzzles@ && match result {
                    Some(r) => if r.best_move@.len() > 0 && r.best_move@ != ctx.played_uci@ && !ctx.after.is_checkmate {
                        final(self).stage == Stage::AwaitAfter(ctx, r) && final(self).ply == old(self).ply
                            && final(self).fen == old(self).fen
                    } else {
                        advanced(*old(self), *final(self), ctx)
                    },
                    None => advanced(*old(self), *final(self), ctx),
                },
                Stage::AwaitAfter(ctx, before) => advanced(*old(self), *final(self), ctx) && match result {
                    Some(a) => exists|p: Option<DetectedPuzzle>|
                        judged(ctx, before, a, old(self).opening, old(self).user_color, p)
                            && final(self).puzzles@ == with_puzzle(old(self).puzzles@, p),
                    None => final(self).puzzles@ == old(self).puzzles@,
                },
                Stage::Idle => false,
            },
    {
        let mut stage = Stage::Idle;
        std::mem::swap(&mut stage, &mut self.stage);
        match stage {
            Stage::Idle => {
                assert(old(self).stage is Idle);
            },
            Stage::AwaitBefore(ctx) => {
                match result {
                    None => self.advance(ctx),
                    Some(r) => {
                        let best_nonempty = !r.best_move.as_str().is_empty();
                        let differs = r.best_move != ctx.played_uci;
                        if best_nonempty && differs && !ctx.after.is_checkmate {
                            self.stage = Stage::AwaitAfter(ctx, r);
                        } else {
                            self.advance(ctx);
                        }
                    },
                }
            },
            Stage::AwaitAfter(ctx, before) => {
                match result {
                    None => self.advance(ctx),
                    Some(after_eval) => {
                        let verdict = self.judge(&ctx, &before, &after_eval);
                        let ghost j = verdict;
                        let ghost kept = self.puzzles@;
                        let ghost kept_plies = self.puzzle_plies@;
                        match verdict {
                            Some(p) => {
                                self.puzzles.push(p);
                                self.puzzle_plies = Ghost(self.puzzle_plies@.push(self.ply as int));
                            },
                            None => {},
                        }
                        assert(self.puzzles@ == with_puzzle(kept, j));
                        proof {
                            let n = kept.len() as int;
                            assert forall|i: int| 0 <= i < self.puzzles@.len() implies {
                                &&& puzzle_sound(#[trigger] self.puzzles@[i], self.user_color)
                                &&& opt_view(self.puzzles@[i].opening_name) == opt_view(self.opening)
                                &&& self.puzzles@[i].move_number as int == move_number_of(self.puzzle_plies@[i])
                                &&& 0 <= self.puzzle_plies@[i] < self.ply + 1
                                &&& self.user_parity@ == Some(self.puzzle_plies@[i] % 2)
                            } by {
                                if i < n {
                                    assert(self.puzzles@[i] == kept[i]);
                                    assert(self.puzzle_plies@[i] == kept_plies[i]);
                                }
                            }
                            assert forall|a: int, b: int| 0 <= a < b < self.puzzle_plies@.len() implies
                                #[trigger] self.puzzle_plies@[a] < #[trigger] self.puzzle_plies@[b] by {
                                if b < n {
                                    assert(self.puzzle_plies@[a] == kept_plies[a]);
                                    assert(self.puzzle_plies@[b] == kept_plies[b]);
                                } else {
                                    assert(self.puzzle_plies@[a] == kept_plies[a]);
                                    lemma_recorded_at(*old(self), old(self).ply as int, a);
                                }
                            }
                        }
                        self.advance(ctx);
                    },
                }
            },
        }
    }

    /// The puzzle that the user's move makes, if it lost enough.
    fn judge(&self, ctx: &PlyContext, before: &EngineEvalResponse, after_eval: &EngineEvalResponse) -> (r: Option<DetectedPuzzle>)
        requires
            ctx_sound(*ctx),
            !ctx.after.is_checkmate,
            ctx.move_number >= 2,
            before.best_move@.len() > 0,
            before.best_move@ != ctx.played_uci@,
        ensures
            r matches Some(p) ==> puzzle_sound(p, self.user_color),
            judged(*ctx, *before, *after_eval, self.opening, self.user_color, r),
    {
        if !score_in_range_exec(before.score_cp, before.mate_in) || !score_in_range_exec(after_eval.score_cp, after_eval.mate_in) {
            return None;
        }
        let eval_before = GameAnalyzer::score_from_side_to_move(before.score_cp, before.mate_in);
        let is_draw = ctx.after.is_stalemate || ctx.after.is_insufficient_material;
        let eval_after = GameAnalyzer::eval_after_move(ctx.after.is_checkmate, is_draw, after_eval.score_cp, after_eval.mate_in);
        let severity = match GameAnalyzer::classify_severity(eval_before, eval_after) {
            Some(s) => s,
            None => return None,
        };
        let label = severity.label();
        let best_uci = before.best_move.clone();
        let best_san = match san_of_uci(ctx.pos.fen.as_str(), best_uci.as_str()) {
            Some(s) => s,
            None => best_uci.clone(),
        };
        let continuation_uci = if before.lines.len() > 0 {
            take_moves(&before.lines[0].pv, 3)
        } else {
            let mut v: Vec<String> = Vec::new();
            v.push(best_uci.clone());
            v
        };
        let blunder_continuation_uci = if after_eval.lines.len() > 0 {
            take_moves(&after_eval.lines[0].pv, 2)
        } else {
            Vec::new()
        };
        let tactical_tags = GameAnalyzer::detect_tactical_tags(&ctx.pos, &ctx.played, best_uci.as_str(), ctx.move_number, label.as_str());
        let opening_name = match &self.opening {
            Some(o) => Some(o.clone()),
            None => None,
        };
        let p = DetectedPuzzle {
            initial_fen: ctx.pos.fen.clone(),
            move_number: ctx.move_number,
            player_color: color_label_exec(self.user_color),
            blunder_move_san: ctx.played_san.clone(),
            blunder_move_uci: ctx.played_uci.clone(),
            best_move_san: best_san,
            best_move_uci: best_uci,
            eval_before,
            eval_after_blunder: eval_after,
            eval_after_best: eval_before,
            continuation_uci,
            blunder_continuation_uci,
            tactical_tags,
            blunder_severity: label,
            opening_name,
        };
        proof {
            assert(played_without_mate(ctx.pos.fen@, ctx.played_san@, ctx.played_uci@));
            let (b, a, sev) = spec_judgement(*before, ctx.after.is_checkmate, is_draw, *after_eval);
            assert(b == eval_before && a == eval_after && sev == Some(severity));
            assert(p.best_move_san@ == match uci_as_san(ctx.pos.fen@, before.best_move@) {
                Some(san) => san,
                None => before.best_move@,
            });
            assert(string_views(p.continuation_uci@) == (if before.lines@.len() > 0 {
                first_moves(before.lines@[0].pv@, 3)
            } else {
                seq![before.best_move@]
            }));
            assert(string_views(p.blunder_continuation_uci@) == (if after_eval.lines@.len() > 0 {
                first_moves(after_eval.lines@[0].pv@, 2)
            } else {
                Seq::empty()
            }));
            assert(opt_view(p.opening_name) == opt_view(self.opening));
            assert(exists|best: Option<(Move, Position)>|
                best_move_outcome(ctx.pos, before.best_move@, best) && string_views(p.tactical_tags@)
                    == spec_tags(ctx.pos, best, ctx.played.capture is Some, ctx.move_number as int,
                    severity_label(sev.unwrap()) == "blunder"@).map_values(|t: TacticalTag| tag_label(t)));
        }
        Some(p)
    }

    /// The puzzles found, once the analysis is over.
    pub fn into_puzzles(self) -> (r: Vec<DetectedPuzzle>)
        requires
            self.wf(),
        ensures
            r@ == self.puzzles@,
            forall|i: int| 0 <= i < r@.len() ==> puzzle_sound(#[trigger] r@[i], self.user_color),
            forall|i: int| 0 <= i < r@.len() ==> opt_view(#[trigger] r@[i].opening_name) == opt_view(self.opening),
            self.moves@.len() < 0x8000_0000 ==> forall|i: int, j: int| 0 <= i < j < r@.len()
                ==> #[trigger] r@[i].move_number < #[trigger] r@[j].move_number,
    {
        proof {
            law_puzzles_in_move_order(self);
        }
        self.puzzles
    }
}

/// Whether the engine's score can be folded without leaving `i32`.
fn score_in_range_exec(score_cp: Option<i32>, mate_in: Option<i32>) -> (r: bool)
    ensures
        r == score_in_range(score_cp, mate_in),
{
    match mate_in {
        Some(m) => -21474836 <= m && m <= 21474836,
        None => match score_cp {
            Some(cp) => cp > i32::MIN,
            None => true,
        },
    }
}

/// At most the first `n` moves of a line.
fn take_moves(pv: &Vec<String>, n: usize) -> (r: Vec<String>)
    ensures
        r@.len() <= n,
        r@.len() <= pv@.len(),
        forall|i: int| 0 <= i < r@.len() ==> #[trigger] r@[i] == pv@[i],
        string_views(r@) == first_moves(pv@, n as int),
{
    let mut out: Vec<String> = Vec::new();
    let mut i: usize = 0;
    while i < n && i < pv.len()
        invariant
            i <= n,
            i <= pv@.len(),
            out@.len() == i,
            forall|j: int| 0 <= j < i ==> #[trigger] out@[j] == pv@[j],
        decreases n - i,
    {
        out.push(pv[i].clone());
        i = i + 1;
    }
    assert(string_views(out@) =~= first_moves(pv@, n as int));
    out
}

} // verus!
