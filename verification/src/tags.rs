//! The tactical and contextual tags of a missed move, and the explanation
//! shown with a puzzle.

use vstd::prelude::*;
use crate::analyzer::GameAnalyzer;
use crate::bits::count_below;
use crate::text::string_views;
use crate::board::{Color, Move, Piece, Position};
use crate::chess_io::{fen_facts, move_from_uci, move_of_codes, position_view, spec_position_of, uci_outcome};
use crate::tactics::{
    spec_back_rank, spec_discovered_attack, spec_discovered_check, spec_fork, spec_hanging_piece,
    spec_pawn_motif, spec_pin, spec_skewer, spec_smothered_mate, spec_trapped_piece, PawnMotif,
};

verus! {

/// The motifs and contexts under which a puzzle is filed.
#[derive(PartialEq, Eq, Structural, Clone, Copy, Debug)]
pub enum TacticalTag {
    SmotheredMate,
    BackRank,
    DoubleCheck,
    DiscoveredCheck,
    DiscoveredAttack,
    Fork,
    Pin,
    Skewer,
    HangingPiece,
    TrappedPiece,
    PawnPromotion,
    AdvancedPassedPawn,
    OpeningMistake,
    EndgameTactic,
    TacticalTrade,
    MissedTactic,
    PositionalAdvantage,
}

/// The name under which a tag is stored and shown.
pub open spec fn tag_label(t: TacticalTag) -> Seq<char> {
    match t {
        TacticalTag::SmotheredMate => "Smothered Mate"@,
        TacticalTag::BackRank => "Back Rank"@,
        TacticalTag::DoubleCheck => "Double Check"@,
        TacticalTag::DiscoveredCheck => "Discovered Check"@,
        TacticalTag::DiscoveredAttack => "Discovered Attack"@,
        TacticalTag::Fork => "Fork"@,
        TacticalTag::Pin => "Pin"@,
        TacticalTag::Skewer => "Skewer"@,
        TacticalTag::HangingPiece => "Hanging Piece"@,
        TacticalTag::TrappedPiece => "Trapped Piece"@,
        TacticalTag::PawnPromotion => "Pawn Promotion"@,
        TacticalTag::AdvancedPassedPawn => "Advanced Passed Pawn"@,
        TacticalTag::OpeningMistake => "Opening Mistake"@,
        TacticalTag::EndgameTactic => "Endgame Tactic"@,
        TacticalTag::TacticalTrade => "Tactical Trade"@,
        TacticalTag::MissedTactic => "Missed Tactic"@,
        TacticalTag::PositionalAdvantage => "Positional Advantage"@,
    }
}

impl TacticalTag {
    /// The name under which the tag is stored and shown.
    pub fn label(&self) -> (r: String)
        ensures
            r@ == tag_label(*self),
    {
        let s = match self {
            TacticalTag::SmotheredMate => "Smothered Mate",
            TacticalTag::BackRank => "Back Rank",
            TacticalTag::DoubleCheck => "Double Check",
            TacticalTag::DiscoveredCheck => "Discovered Check",
            TacticalTag::DiscoveredAttack => "Discovered Attack",
            TacticalTag::Fork => "Fork",
            TacticalTag::Pin => "Pin",
            TacticalTag::Skewer => "Skewer",
            TacticalTag::HangingPiece => "Hanging Piece",
            TacticalTag::TrappedPiece => "Trapped Piece",
            TacticalTag::PawnPromotion => "Pawn Promotion",
            TacticalTag::AdvancedPassedPawn => "Advanced Passed Pawn",
            TacticalTag::OpeningMistake => "Opening Mistake",
            TacticalTag::EndgameTactic => "Endgame Tactic",
            TacticalTag::TacticalTrade => "Tactical Trade",
            TacticalTag::MissedTactic => "Missed Tactic",
            TacticalTag::PositionalAdvantage => "Positional Advantage",
        };
        s.to_string()
    }
}

pub open spec fn opt_tag(present: bool, t: TacticalTag) -> Seq<TacticalTag> {
    if present {
        seq![t]
    } else {
        seq![]
    }
}

/// Checkmate-pattern tags: smothered mate, back rank, double check.
pub open spec fn mate_tags(m: Move, after: Position, turn: Color) -> Seq<TacticalTag> {
    opt_tag(spec_smothered_mate(after, m, turn), TacticalTag::SmotheredMate) + opt_tag(
        spec_back_rank(after, m, turn),
        TacticalTag::BackRank,
    ) + opt_tag(after.checkers > 1, TacticalTag::DoubleCheck)
}

/// A discovered check, or else a discovered attack.
pub open spec fn line_tags(before: Position, m: Move, after: Position, turn: Color) -> Seq<TacticalTag> {
    if spec_discovered_check(before.board@, after.board@, m, turn) {
        seq![TacticalTag::DiscoveredCheck]
    } else if spec_discovered_attack(before.board@, after.board@, m, turn) {
        seq![TacticalTag::DiscoveredAttack]
    } else {
        seq![]
    }
}

/// Fork, pin and skewer tags.
pub open spec fn geometry_tags(m: Move, after: Position, turn: Color) -> Seq<TacticalTag> {
    opt_tag(spec_fork(after.board@, m, turn), TacticalTag::Fork) + opt_tag(
        spec_pin(after.board@, m, turn),
        TacticalTag::Pin,
    ) + opt_tag(spec_skewer(after.board@, m, turn), TacticalTag::Skewer)
}

/// Hanging piece, trapped piece and pawn motif tags.
pub open spec fn material_tags(before: Position, m: Move, after: Position, turn: Color) -> Seq<TacticalTag> {
    opt_tag(spec_hanging_piece(before.board@, m, turn), TacticalTag::HangingPiece) + opt_tag(
        spec_trapped_piece(after.board@, m, turn),
        TacticalTag::TrappedPiece,
    ) + match spec_pawn_motif(m, turn) {
        Some(PawnMotif::Promotion) => seq![TacticalTag::PawnPromotion],
        Some(PawnMotif::AdvancedPassedPawn) => seq![TacticalTag::AdvancedPassedPawn],
        None => seq![],
    }
}

#[verifier::opaque]
/// The motif tags that the best move `m`, played from `before` to reach
/// `after`, earns, in the order checkmate patterns, discovered check or
/// attack, fork, pin, skewer, hanging piece, trapped piece, pawn motif.
pub open spec fn best_move_tags(before: Position, m: Move, after: Position) -> Seq<TacticalTag> {
    mate_tags(m, after, before.turn) + line_tags(before, m, after, before.turn) + geometry_tags(
        m,
        after,
        before.turn,
    ) + material_tags(before, m, after, before.turn)
}

/// The number of pieces on a board.
pub open spec fn piece_count(board: Seq<Option<Piece>>) -> nat {
    count_below(|s: int| board[s] is Some, 64)
}

/// The tags of a missed move: the motifs of the best move (when it is
/// known), then "Opening Mistake" up to move 10, "Endgame Tactic" with at
/// most 10 pieces on the board, "Tactical Trade" when the played move
/// captured; a blunder with nothing else to say is a "Missed Tactic", and
/// anything else with nothing to say a "Positional Advantage".
pub open spec fn spec_tags(
    before: Position,
    best: Option<(Move, Position)>,
    played_capture: bool,
    move_number: int,
    is_blunder: bool,
) -> Seq<TacticalTag> {
    let motifs = match best {
        Some((m, after)) => best_move_tags(before, m, after),
        None => seq![],
    };
    let with_context = motifs + opt_tag(move_number <= 10, TacticalTag::OpeningMistake) + opt_tag(
        piece_count(before.board@) <= 10,
        TacticalTag::EndgameTactic,
    ) + opt_tag(played_capture, TacticalTag::TacticalTrade);
    if with_context.len() == 0 {
        if is_blunder {
            seq![TacticalTag::MissedTactic]
        } else {
            seq![TacticalTag::PositionalAdvantage]
        }
    } else {
        with_context
    }
}

/// What `shakmaty` makes of the best move in UCI notation on the position:
/// the move and the position it leads to, when both are legal and readable.
pub open spec fn best_move_outcome(pos: Position, best_uci: Seq<char>, best: Option<(Move, Position)>) -> bool {
    match best {
        Some((m, after)) => after.wf() && m.wf() && (uci_outcome(pos.fen@, best_uci) matches Some(
            (a, b, c, d, e, f),
        ) && m == move_of_codes(a, b, c, d, e) && (fen_facts(f) matches Some(ff)
            && position_view(after) == spec_position_of(f, ff))),
        None => uci_outcome(pos.fen@, best_uci) is None || (uci_outcome(pos.fen@, best_uci) matches Some(
            (a, b, c, d, e, f),
        ) && fen_facts(f) is None),
    }
}

fn push_tag(tags: &mut Vec<TacticalTag>, present: bool, t: TacticalTag)
    ensures
        final(tags)@ == old(tags)@ + opt_tag(present, t),
{
    if present {
        tags.push(t);
    }
}

impl GameAnalyzer {
    /// The number of pieces on the board.
    fn count_pieces(pos: &Position) -> (r: u32)
        requires
            pos.wf(),
        ensures
            r == piece_count(pos.board@),
    {
        let ghost pred = |s: int| pos.board@[s] is Some;
        let mut n: u32 = 0;
        let mut i: u8 = 0;
        while i < 64
            invariant
                pos.wf(),
                pred == (|s: int| pos.board@[s] is Some),
                i <= 64,
                n <= i,
                n == count_below(pred, i as int),
            decreases 64 - i,
        {
            if pos.board.piece_at(i).is_some() {
                n = n + 1;
            }
            i = i + 1;
        }
        n
    }

    /// The tags of a missed move, given the best move already played out
    /// (`None` when the best move could not be read).
    pub fn tactical_tags(
        pos: &Position,
        best: &Option<(Move, Position)>,
        played_move: &Move,
        move_number: i32,
        is_blunder: bool,
    ) -> (r: Vec<TacticalTag>)
        requires
            pos.wf(),
            best matches Some((m, after)) ==> m.wf() && after.wf(),
        ensures
            r@ == spec_tags(*pos, *best, played_move.capture is Some, move_number as int, is_blunder),
    {
        let mut tags: Vec<TacticalTag> = match best {
            Some((best_m, after)) => Self::best_move_motifs(pos, best_m, after),
            None => Vec::new(),
        };
        push_tag(&mut tags, move_number <= 10, TacticalTag::OpeningMistake);
        push_tag(&mut tags, Self::count_pieces(pos) <= 10, TacticalTag::EndgameTactic);
        push_tag(&mut tags, played_move.is_capture(), TacticalTag::TacticalTrade);
        if is_blunder && tags.len() == 0 {
            tags.push(TacticalTag::MissedTactic);
        }
        if tags.len() == 0 {
            tags.push(TacticalTag::PositionalAdvantage);
        }
        tags
    }

    /// The motif tags of the best move.
    fn best_move_motifs(pos: &Position, best_m: &Move, after: &Position) -> (r: Vec<TacticalTag>)
        requires
            pos.wf(),
            best_m.wf(),
            after.wf(),
        ensures
            r@ == best_move_tags(*pos, *best_m, *after),
    {
        reveal(best_move_tags);
        let turn = pos.turn;
        let mut tags = Self::mate_motifs(best_m, after, turn);
        let mut line = Self::line_motifs(pos, best_m, after, turn);
        let mut geometry = Self::geometry_motifs(best_m, after, turn);
        let mut material = Self::material_motifs(pos, best_m, after, turn);
        tags.append(&mut line);
        tags.append(&mut geometry);
        tags.append(&mut material);
        tags
    }

    fn mate_motifs(best_m: &Move, after: &Position, turn: Color) -> (r: Vec<TacticalTag>)
        requires
            best_m.wf(),
            after.wf(),
        ensures
            r@ == mate_tags(*best_m, *after, turn),
    {
        let mut tags: Vec<TacticalTag> = Vec::new();
        push_tag(&mut tags, Self::detect_smothered_mate(after, best_m, turn), TacticalTag::SmotheredMate);
        push_tag(&mut tags, Self::detect_back_rank(after, best_m, turn), TacticalTag::BackRank);
        push_tag(&mut tags, Self::detect_double_check(after), TacticalTag::DoubleCheck);
        tags
    }

    fn line_motifs(pos: &Position, best_m: &Move, after: &Position, turn: Color) -> (r: Vec<TacticalTag>)
        requires
            pos.wf(),
            best_m.wf(),
            after.wf(),
        ensures
            r@ == line_tags(*pos, *best_m, *after, turn),
    {
        let mut tags: Vec<TacticalTag> = Vec::new();
        let (disc_attack, disc_check) = Self::detect_discovered_attack(pos, after, best_m, turn);
        if disc_check {
            tags.push(TacticalTag::DiscoveredCheck);
        } else if disc_attack {
            tags.push(TacticalTag::DiscoveredAttack);
        }
        tags
    }

    fn geometry_motifs(best_m: &Move, after: &Position, turn: Color) -> (r: Vec<TacticalTag>)
        requires
            best_m.wf(),
            after.wf(),
        ensures
            r@ == geometry_tags(*best_m, *after, turn),
    {
        let mut tags: Vec<TacticalTag> = Vec::new();
        push_tag(&mut tags, Self::detect_fork(&after.board, best_m, turn), TacticalTag::Fork);
        push_tag(&mut tags, Self::detect_pin(&after.board, best_m, turn), TacticalTag::Pin);
        push_tag(&mut tags, Self::detect_skewer(&after.board, best_m, turn), TacticalTag::Skewer);
        tags
    }

    fn material_motifs(pos: &Position, best_m: &Move, after: &Position, turn: Color) -> (r: Vec<TacticalTag>)
        requires
            pos.wf(),
            best_m.wf(),
            after.wf(),
        ensures
            r@ == material_tags(*pos, *best_m, *after, turn),
    {
        let mut tags: Vec<TacticalTag> = Vec::new();
        push_tag(&mut tags, Self::detect_hanging_piece(pos, best_m, turn), TacticalTag::HangingPiece);
        push_tag(&mut tags, Self::detect_trapped_piece(after, best_m, turn), TacticalTag::TrappedPiece);
        match Self::detect_pawn_motif(best_m, turn) {
            Some(PawnMotif::Promotion) => tags.push(TacticalTag::PawnPromotion),
            Some(PawnMotif::AdvancedPassedPawn) => tags.push(TacticalTag::AdvancedPassedPawn),
            None => {},
        }
        tags
    }

    /// The tags of a missed move, with the engine's best move in UCI
    /// notation, as stored labels.
    pub fn detect_tactical_tags(
        pos: &Position,
        played_move: &Move,
        best_uci: &str,
        move_number: i32,
        severity: &str,
    ) -> (r: Vec<String>)
        requires
            pos.wf(),
        ensures
            exists|best: Option<(Move, Position)>| best_move_outcome(*pos, best_uci@, best) && string_views(r@)
                == spec_tags(*pos, best, played_move.capture is Some, move_number as int, severity@ == "blunder"@).map_values(
                |t: TacticalTag| tag_label(t),
            ),
    {
        let best: Option<(Move, Position)> = match move_from_uci(&pos.fen, best_uci) {
            Some((m, fen_after)) => match Position::from_fen(&fen_after) {
                Some(after) => Some((m, after)),
                None => None,
            },
            None => None,
        };
        let is_blunder = severity.to_string() == "blunder".to_string();
        let tags = Self::tactical_tags(pos, &best, played_move, move_number, is_blunder);
        let mut out: Vec<String> = Vec::new();
        let mut i: usize = 0;
        while i < tags.len()
            invariant
                i <= tags@.len(),
                out@.len() == i,
                forall|j: int| 0 <= j < i ==> out@[j]@ == tag_label(#[trigger] tags@[j]),
            decreases tags@.len() - i,
        {
            out.push(tags[i].label());
            i = i + 1;
        }
        assert(string_views(out@) =~= tags@.map_values(|t: TacticalTag| tag_label(t)));
        assert(best_move_outcome(*pos, best_uci@, best));
        out
    }
}

} // verus!

verus! {

/// The position of a tag in the order in which tags are assigned.
pub open spec fn tag_rank(t: TacticalTag) -> int {
    match t {
        TacticalTag::SmotheredMate => 0,
        TacticalTag::BackRank => 1,
        TacticalTag::DoubleCheck => 2,
        TacticalTag::DiscoveredCheck => 3,
        TacticalTag::DiscoveredAttack => 4,
        TacticalTag::Fork => 5,
        TacticalTag::Pin => 6,
        TacticalTag::Skewer => 7,
        TacticalTag::HangingPiece => 8,
        TacticalTag::TrappedPiece => 9,
        TacticalTag::PawnPromotion => 10,
        TacticalTag::AdvancedPassedPawn => 11,
        TacticalTag::OpeningMistake => 12,
        TacticalTag::EndgameTactic => 13,
        TacticalTag::TacticalTrade => 14,
        TacticalTag::MissedTactic => 15,
        TacticalTag::PositionalAdvantage => 16,
    }
}

pub open spec fn rank_increasing(s: Seq<TacticalTag>) -> bool {
    forall|i: int, j: int| 0 <= i < j < s.len() ==> tag_rank(#[trigger] s[i]) < tag_rank(#[trigger] s[j])
}

pub open spec fn ranks_within(s: Seq<TacticalTag>, lo: int, hi: int) -> bool {
    forall|i: int| 0 <= i < s.len() ==> lo <= #[trigger] tag_rank(s[i]) < hi
}

/// No tag occurs twice.
pub open spec fn distinct_tags(s: Seq<TacticalTag>) -> bool {
    forall|i: int, j: int| 0 <= i < j < s.len() ==> #[trigger] s[i] != #[trigger] s[j]
}

proof fn lemma_concat_increasing(a: Seq<TacticalTag>, b: Seq<TacticalTag>, lo: int, mid: int, hi: int)
    requires
        rank_increasing(a),
        rank_increasing(b),
        ranks_within(a, lo, mid),
        ranks_within(b, mid, hi),
        lo <= mid <= hi,
    ensures
        rank_increasing(a + b),
        ranks_within(a + b, lo, hi),
{
    let c = a + b;
    assert forall|i: int, j: int| 0 <= i < j < c.len() implies tag_rank(#[trigger] c[i]) < tag_rank(#[trigger] c[j]) by {
        if j < a.len() {
            assert(c[i] == a[i] && c[j] == a[j]);
        } else if i >= a.len() {
            assert(c[i] == b[i - a.len()] && c[j] == b[j - a.len()]);
        } else {
            assert(c[i] == a[i] && c[j] == b[j - a.len()]);
        }
    }
    assert forall|i: int| 0 <= i < c.len() implies lo <= #[trigger] tag_rank(c[i]) < hi by {
        if i < a.len() {
            assert(c[i] == a[i]);
            assert(lo <= tag_rank(a[i]) < mid);
        } else {
            assert(c[i] == b[i - a.len()]);
            assert(mid <= tag_rank(b[i - a.len()]) < hi);
        }
    }
}

proof fn lemma_opt_tag(present: bool, t: TacticalTag)
    ensures
        rank_increasing(opt_tag(present, t)),
        ranks_within(opt_tag(present, t), tag_rank(t), tag_rank(t) + 1),
{
}

proof fn lemma_best_move_tags_increasing(before: Position, m: Move, after: Position)
    ensures
        rank_increasing(best_move_tags(before, m, after)),
        ranks_within(best_move_tags(before, m, after), 0, 12),
{
    reveal(best_move_tags);
    let turn = before.turn;
    lemma_opt_tag(spec_smothered_mate(after, m, turn), TacticalTag::SmotheredMate);
    lemma_opt_tag(spec_back_rank(after, m, turn), TacticalTag::BackRank);
    lemma_opt_tag(after.checkers > 1, TacticalTag::DoubleCheck);
    let m1 = opt_tag(spec_smothered_mate(after, m, turn), TacticalTag::SmotheredMate);
    let m2 = opt_tag(spec_back_rank(after, m, turn), TacticalTag::BackRank);
    let m3 = opt_tag(after.checkers > 1, TacticalTag::DoubleCheck);
    lemma_concat_increasing(m1, m2, 0, 1, 2);
    lemma_concat_increasing(m1 + m2, m3, 0, 2, 3);
    let mates = mate_tags(m, after, turn);
    assert(mates == m1 + m2 + m3);
    let lines = line_tags(before, m, after, turn);
    assert(rank_increasing(lines) && ranks_within(lines, 3, 5));
    lemma_concat_increasing(mates, lines, 0, 3, 5);
    let g1 = opt_tag(spec_fork(after.board@, m, turn), TacticalTag::Fork);
    let g2 = opt_tag(spec_pin(after.board@, m, turn), TacticalTag::Pin);
    let g3 = opt_tag(spec_skewer(after.board@, m, turn), TacticalTag::Skewer);
    lemma_opt_tag(spec_fork(after.board@, m, turn), TacticalTag::Fork);
    lemma_opt_tag(spec_pin(after.board@, m, turn), TacticalTag::Pin);
    lemma_opt_tag(spec_skewer(after.board@, m, turn), TacticalTag::Skewer);
    lemma_concat_increasing(g1, g2, 5, 6, 7);
    lemma_concat_increasing(g1 + g2, g3, 5, 7, 8);
    let geos = geometry_tags(m, after, turn);
    assert(geos == g1 + g2 + g3);
    lemma_concat_increasing(mates + lines, geos, 0, 5, 8);
    let h1 = opt_tag(spec_hanging_piece(before.board@, m, turn), TacticalTag::HangingPiece);
    let h2 = opt_tag(spec_trapped_piece(after.board@, m, turn), TacticalTag::TrappedPiece);
    let h3 = match spec_pawn_motif(m, turn) {
        Some(PawnMotif::Promotion) => seq![TacticalTag::PawnPromotion],
        Some(PawnMotif::AdvancedPassedPawn) => seq![TacticalTag::AdvancedPassedPawn],
        None => seq![],
    };
    lemma_opt_tag(spec_hanging_piece(before.board@, m, turn), TacticalTag::HangingPiece);
    lemma_opt_tag(spec_trapped_piece(after.board@, m, turn), TacticalTag::TrappedPiece);
    assert(rank_increasing(h3) && ranks_within(h3, 10, 12));
    lemma_concat_increasing(h1, h2, 8, 9, 10);
    lemma_concat_increasing(h1 + h2, h3, 8, 10, 12);
    let mats = material_tags(before, m, after, turn);
    assert(mats == h1 + h2 + h3);
    lemma_concat_increasing(mates + lines + geos, mats, 0, 8, 12);
}

/// Every missed move gets at least one tag, no tag twice, and the tags come
/// in the fixed order of `tag_rank`.
pub proof fn law_tags_nonempty_and_distinct(
    before: Position,
    best: Option<(Move, Position)>,
    played_capture: bool,
    move_number: int,
    is_blunder: bool,
)
    ensures
        spec_tags(before, best, played_capture, move_number, is_blunder).len() > 0,
        distinct_tags(spec_tags(before, best, played_capture, move_number, is_blunder)),
        rank_increasing(spec_tags(before, best, played_capture, move_number, is_blunder)),
{
    let motifs = match best {
        Some((m, after)) => best_move_tags(before, m, after),
        None => seq![],
    };
    if let Some((m, after)) = best {
        lemma_best_move_tags_increasing(before, m, after);
    }
    assert(rank_increasing(motifs) && ranks_within(motifs, 0, 12));
    let c1 = opt_tag(move_number <= 10, TacticalTag::OpeningMistake);
    let c2 = opt_tag(piece_count(before.board@) <= 10, TacticalTag::EndgameTactic);
    let c3 = opt_tag(played_capture, TacticalTag::TacticalTrade);
    lemma_opt_tag(move_number <= 10, TacticalTag::OpeningMistake);
    lemma_opt_tag(piece_count(before.board@) <= 10, TacticalTag::EndgameTactic);
    lemma_opt_tag(played_capture, TacticalTag::TacticalTrade);
    lemma_concat_increasing(motifs, c1, 0, 12, 13);
    lemma_concat_increasing(motifs + c1, c2, 0, 13, 14);
    lemma_concat_increasing(motifs + c1 + c2, c3, 0, 14, 15);
    let r = spec_tags(before, best, played_capture, move_number, is_blunder);
    assert(rank_increasing(r));
    assert forall|i: int, j: int| 0 <= i < j < r.len() implies #[trigger] r[i] != #[trigger] r[j] by {
        assert(tag_rank(r[i]) < tag_rank(r[j]));
    }
}

/// "Opening Mistake" is among the tags exactly when the move was made by
/// move 10.
pub proof fn law_opening_tag_iff_early(
    before: Position,
    best: Option<(Move, Position)>,
    played_capture: bool,
    move_number: int,
    is_blunder: bool,
)
    ensures
        spec_tags(before, best, played_capture, move_number, is_blunder).contains(TacticalTag::OpeningMistake)
            <==> move_number <= 10,
{
    law_tags_nonempty_and_distinct(before, best, played_capture, move_number, is_blunder);
    let motifs = match best {
        Some((m, after)) => best_move_tags(before, m, after),
        None => seq![],
    };
    if let Some((m, after)) = best {
        lemma_best_move_tags_increasing(before, m, after);
    }
    let r = spec_tags(before, best, played_capture, move_number, is_blunder);
    let c1 = opt_tag(move_number <= 10, TacticalTag::OpeningMistake);
    let c2 = opt_tag(piece_count(before.board@) <= 10, TacticalTag::EndgameTactic);
    let c3 = opt_tag(played_capture, TacticalTag::TacticalTrade);
    let w = motifs + c1 + c2 + c3;
    if move_number <= 10 {
        assert(w[motifs.len() as int] == TacticalTag::OpeningMistake);
        assert(r == w);
    } else {
        if r.contains(TacticalTag::OpeningMistake) {
            let i = choose|i: int| 0 <= i < r.len() && r[i] == TacticalTag::OpeningMistake;
            if w.len() > 0 {
                assert(r == w);
                if i < motifs.len() {
                    assert(w[i] == motifs[i]);
                } else if i < motifs.len() + c1.len() + c2.len() {
                    assert(c1.len() == 0);
                    assert(w[i] == c2[i - motifs.len()]);
                } else {
                    assert(w[i] == c3[i - motifs.len() - c1.len() - c2.len()]);
                }
            }
        }
    }
}

/// "Missed Tactic" is given only to a blunder, and then as its only tag.
pub proof fn law_missed_tactic_only_alone_for_blunders(
    before: Position,
    best: Option<(Move, Position)>,
    played_capture: bool,
    move_number: int,
    is_blunder: bool,
)
    ensures
        spec_tags(before, best, played_capture, move_number, is_blunder).contains(TacticalTag::MissedTactic)
            ==> is_blunder && spec_tags(before, best, played_capture, move_number, is_blunder)
            == seq![TacticalTag::MissedTactic],
{
    let motifs = match best {
        Some((m, after)) => best_move_tags(before, m, after),
        None => seq![],
    };
    if let Some((m, after)) = best {
        lemma_best_move_tags_increasing(before, m, after);
    }
    let r = spec_tags(before, best, played_capture, move_number, is_blunder);
    let c1 = opt_tag(move_number <= 10, TacticalTag::OpeningMistake);
    let c2 = opt_tag(piece_count(before.board@) <= 10, TacticalTag::EndgameTactic);
    let c3 = opt_tag(played_capture, TacticalTag::TacticalTrade);
    let w = motifs + c1 + c2 + c3;
    lemma_opt_tag(move_number <= 10, TacticalTag::OpeningMistake);
    lemma_opt_tag(piece_count(before.board@) <= 10, TacticalTag::EndgameTactic);
    lemma_opt_tag(played_capture, TacticalTag::TacticalTrade);
    lemma_concat_increasing(motifs, c1, 0, 12, 13);
    lemma_concat_increasing(motifs + c1, c2, 0, 13, 14);
    lemma_concat_increasing(motifs + c1 + c2, c3, 0, 14, 15);
    if w.len() > 0 && r.contains(TacticalTag::MissedTactic) {
        let i = choose|i: int| 0 <= i < r.len() && r[i] == TacticalTag::MissedTactic;
        assert(r == w);
        assert(tag_rank(w[i]) < 15);
    }
}

} // verus!
