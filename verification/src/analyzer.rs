use vstd::prelude::*;

verus! {

/// The analysis logic applied to a user's games: engine-score
/// interpretation, blunder grading, tactical motif detection and PGN handling.
/// The functions are associated functions; the engine that feeds them is
/// driven from outside the library.
pub struct GameAnalyzer;

/// Centipawn value that stands for "mate on the board".
pub const MATE_SCORE: i32 = 10000;

/// An engine score (centipawns or mate distance) folded into one centipawn
/// scale, from the point of view of the side to move: mate in `m > 0`
/// scores `10000 - 100 m`, being mated in `|m|` scores `-10000 + 100 |m|`,
/// `mate 0` (already mated) scores `-10000`; without a mate score the
/// centipawn score counts, and 0 when there is none.
pub open spec fn spec_score_from_side_to_move(score_cp: Option<i32>, mate_in: Option<i32>) -> int {
    match mate_in {
        Some(m) => if m > 0 {
            10000 - m * 100
        } else if m < 0 {
            -10000 - m * 100
        } else {
            -10000
        },
        None => match score_cp {
            Some(cp) => cp as int,
            None => 0,
        },
    }
}

/// The folded score from the point of view of the active player, or of its
/// opponent.
pub open spec fn spec_score_from_pov(score_cp: Option<i32>, mate_in: Option<i32>, is_active_player: bool) -> int {
    if is_active_player {
        spec_score_from_side_to_move(score_cp, mate_in)
    } else {
        -spec_score_from_side_to_move(score_cp, mate_in)
    }
}

/// The mate distances that the folding handles without leaving `i32`.
pub open spec fn mate_in_range(mate_in: Option<i32>) -> bool {
    mate_in matches Some(m) ==> -21474836 <= m <= 21474836
}

/// The engine scores whose folded value can also be negated without
/// leaving `i32`.
pub open spec fn score_in_range(score_cp: Option<i32>, mate_in: Option<i32>) -> bool {
    &&& mate_in_range(mate_in)
    &&& (mate_in is None ==> (score_cp matches Some(cp) ==> cp > i32::MIN))
}

/// How bad a move was.
#[derive(PartialEq, Eq, Structural, Clone, Copy, Debug)]
pub enum Severity {
    Inaccuracy,
    Mistake,
    Blunder,
}

/// The grade of a move that changed the mover's evaluation from
/// `eval_before` to `eval_after` (both from the mover's point of view):
/// a blunder loses 250 centipawns or more, or drops a position that was not
/// already lost (above -150) into a lost one (below -400); a mistake loses
/// 120 or more, an inaccuracy 60 or more; anything less is no error.
pub open spec fn spec_severity(eval_before: int, eval_after: int) -> Option<Severity> {
    let drop = eval_before - eval_after;
    if drop >= 250 || (eval_before > -150 && eval_after < -400) {
        Some(Severity::Blunder)
    } else if drop >= 120 {
        Some(Severity::Mistake)
    } else if drop >= 60 {
        Some(Severity::Inaccuracy)
    } else {
        None
    }
}

/// The label under which a grade is stored.
pub open spec fn severity_label(s: Severity) -> Seq<char> {
    match s {
        Severity::Blunder => seq!['b', 'l', 'u', 'n', 'd', 'e', 'r'],
        Severity::Mistake => seq!['m', 'i', 's', 't', 'a', 'k', 'e'],
        Severity::Inaccuracy => seq!['i', 'n', 'a', 'c', 'c', 'u', 'r', 'a', 'c', 'y'],
    }
}

/// The evaluation, from the mover's point of view, of the position after the
/// move: a delivered mate is worth the full mate score, a stalemate or dead
/// draw is worth 0, otherwise the engine's score for the opponent (who is to
/// move) is negated.
pub open spec fn spec_eval_after_move(
    is_checkmate: bool,
    is_draw: bool,
    score_cp: Option<i32>,
    mate_in: Option<i32>,
) -> int {
    if is_checkmate {
        10000
    } else if is_draw {
        0
    } else {
        -spec_score_from_side_to_move(score_cp, mate_in)
    }
}

impl GameAnalyzer {
    /// Folds an engine score into centipawns from the side to move.
    pub fn score_from_side_to_move(score_cp: Option<i32>, mate_in: Option<i32>) -> (r: i32)
        requires
            mate_in_range(mate_in),
        ensures
            r == spec_score_from_side_to_move(score_cp, mate_in),
    {
        if let Some(m) = mate_in {
            if m > 0 {
                10000 - (m * 100)
            } else if m < 0 {
                -10000 + ((-m) * 100)
            } else {
                -10000
            }
        } else {
            match score_cp {
                Some(cp) => cp,
                None => 0,
            }
        }
    }

    /// The folded score from the active player's point of view, or negated
    /// for the opponent.
    pub fn score_from_pov(score_cp: Option<i32>, mate_in: Option<i32>, is_active_player: bool) -> (r: i32)
        requires
            mate_in_range(mate_in),
            !is_active_player ==> score_in_range(score_cp, mate_in),
        ensures
            r == spec_score_from_pov(score_cp, mate_in, is_active_player),
    {
        let raw = Self::score_from_side_to_move(score_cp, mate_in);
        if is_active_player {
            raw
        } else {
            -raw
        }
    }

    /// The evaluation of the position after a move, from the mover's side.
    pub fn eval_after_move(
        is_checkmate: bool,
        is_draw: bool,
        score_cp: Option<i32>,
        mate_in: Option<i32>,
    ) -> (r: i32)
        requires
            score_in_range(score_cp, mate_in),
        ensures
            r == spec_eval_after_move(is_checkmate, is_draw, score_cp, mate_in),
    {
        if is_checkmate {
            10000
        } else if is_draw {
            0
        } else {
            -Self::score_from_side_to_move(score_cp, mate_in)
        }
    }

    /// Grades a move by the evaluation it lost.
    pub fn classify_severity(eval_before: i32, eval_after: i32) -> (r: Option<Severity>)
        ensures
            r == spec_severity(eval_before as int, eval_after as int),
    {
        let drop: i64 = eval_before as i64 - eval_after as i64;
        if drop >= 250 || (eval_before > -150 && eval_after < -400) {
            Some(Severity::Blunder)
        } else if drop >= 120 {
            Some(Severity::Mistake)
        } else if drop >= 60 {
            Some(Severity::Inaccuracy)
        } else {
            None
        }
    }
}

impl Severity {
    /// The label under which the grade is stored ("blunder", "mistake",
    /// "inaccuracy").
    pub fn label(&self) -> (r: String)
        ensures
            r@ == severity_label(*self),
    {
        let s = match self {
            Severity::Blunder => "blunder",
            Severity::Mistake => "mistake",
            Severity::Inaccuracy => "inaccuracy",
        };
        proof {
            reveal_strlit("blunder");
            reveal_strlit("mistake");
            reveal_strlit("inaccuracy");
        }
        s.to_string()
    }
}

/// The same score seen by the two players differs only in sign.
pub proof fn law_pov_antisymmetric(score_cp: Option<i32>, mate_in: Option<i32>)
    ensures
        spec_score_from_pov(score_cp, mate_in, true) == -spec_score_from_pov(score_cp, mate_in, false),
{
}

/// A shorter forced mate always scores higher than a longer one, and being
/// mated later always scores higher than being mated sooner.
pub proof fn law_shorter_mate_scores_higher(m1: i32, m2: i32)
    requires
        0 < m1 < m2 || m1 < m2 < 0,
    ensures
        spec_score_from_side_to_move(None, Some(m1)) > spec_score_from_side_to_move(None, Some(m2)),
{
}

/// Any forced mate for the side to move within 99 moves outranks every mate
/// against it within 99 moves.
pub proof fn law_winning_mate_beats_losing_mate(m1: i32, m2: i32)
    requires
        0 < m1 < 100,
        -100 < m2 <= 0,
    ensures
        spec_score_from_side_to_move(None, Some(m1)) > spec_score_from_side_to_move(None, Some(m2)),
{
}

/// A mate score takes precedence over any centipawn score reported with it.
pub proof fn law_mate_overrides_centipawns(cp1: Option<i32>, cp2: Option<i32>, m: i32)
    ensures
        spec_score_from_side_to_move(cp1, Some(m)) == spec_score_from_side_to_move(cp2, Some(m)),
{
}

/// The grade of a move depends only on how much evaluation it lost.
pub proof fn law_severity_depends_on_drop(b1: int, a1: int, b2: int, a2: int)
    requires
        b1 - a1 == b2 - a2,
    ensures
        spec_severity(b1, a1) == spec_severity(b2, a2),
{
}

/// A larger loss never earns a milder grade: the grade is monotone in the
/// evaluation lost (no error < inaccuracy < mistake < blunder).
pub proof fn law_severity_monotone(before: int, after1: int, after2: int)
    requires
        after2 <= after1,
    ensures
        severity_rank(spec_severity(before, after1)) <= severity_rank(spec_severity(before, after2)),
{
}

/// Orders the grades: no error, inaccuracy, mistake, blunder.
pub open spec fn severity_rank(s: Option<Severity>) -> int {
    match s {
        None => 0,
        Some(Severity::Inaccuracy) => 1,
        Some(Severity::Mistake) => 2,
        Some(Severity::Blunder) => 3,
    }
}

} // verus!
