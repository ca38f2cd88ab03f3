//! The one-line explanation shown with a puzzle's solution, and the pawn
//! motif labels.

use vstd::prelude::*;
use vstd::string::StringExecFns;
use crate::analyzer::GameAnalyzer;
use crate::board::{Color, Move};
use crate::tactics::{spec_pawn_motif, PawnMotif};
use crate::text::{list_contains, string_views};

verus! {

/// The text that opens an explanation: the best move's SAN and a colon, or
/// nothing.
pub open spec fn explanation_prefix(best_san: Option<Seq<char>>) -> Seq<char> {
    match best_san {
        Some(s) => s + ": "@,
        None => Seq::empty(),
    }
}

/// The explanation of the first motif among the tags, checked in the order
/// smothered mate, back rank, double check, discovered check, discovered
/// attack, fork, pin, skewer, trapped piece, hanging piece, promotion,
/// passed pawn; a generic sentence when none is present.
pub open spec fn explanation_body(tags: Seq<Seq<char>>) -> Seq<char> {
    if tags.contains("Smothered Mate"@) {
        "Delivers a smothered checkmate with the knight!"@
    } else if tags.contains("Back Rank"@) {
        "Exploits the weak back rank."@
    } else if tags.contains("Double Check"@) {
        "Delivers a powerful double check."@
    } else if tags.contains("Discovered Check"@) {
        "Unleashes a discovered check against the king."@
    } else if tags.contains("Discovered Attack"@) {
        "Unleashes a discovered attack from behind."@
    } else if tags.contains("Fork"@) {
        "Forks multiple enemy pieces simultaneously."@
    } else if tags.contains("Pin"@) {
        "Pins an enemy piece to their king or queen."@
    } else if tags.contains("Skewer"@) {
        "Skewers a high-value piece to win material."@
    } else if tags.contains("Trapped Piece"@) {
        "Traps an enemy piece with no safe escape."@
    } else if tags.contains("Hanging Piece"@) {
        "Wins an undefended hanging piece."@
    } else if tags.contains("Pawn Promotion"@) {
        "Promotes to a new queen."@
    } else if tags.contains("Advanced Passed Pawn"@) {
        "Advances a dangerous passed pawn."@
    } else {
        "Best tactical continuation."@
    }
}

pub open spec fn spec_explanation(tags: Seq<Seq<char>>, best_san: Option<Seq<char>>) -> Seq<char> {
    explanation_prefix(best_san) + explanation_body(tags)
}

pub open spec fn opt_str_view(s: Option<&str>) -> Option<Seq<char>> {
    match s {
        Some(x) => Some(x@),
        None => None,
    }
}

/// The label of a pawn motif.
pub open spec fn pawn_motif_label(m: PawnMotif) -> Seq<char> {
    match m {
        PawnMotif::Promotion => "Pawn Promotion"@,
        PawnMotif::AdvancedPassedPawn => "Advanced Passed Pawn"@,
    }
}

/// The motifs that an explanation speaks of, most specific first.
pub open spec fn motif_priority() -> Seq<Seq<char>> {
    seq!["Smothered Mate"@, "Back Rank"@, "Double Check"@, "Discovered Check"@, "Discovered Attack"@, "Fork"@, "Pin"@, "Skewer"@, "Trapped Piece"@, "Hanging Piece"@, "Pawn Promotion"@, "Advanced Passed Pawn"@]
}

/// The sentence for each motif, in the same order, then the sentence for
/// no motif.
pub open spec fn motif_sentences() -> Seq<Seq<char>> {
    seq!["Delivers a smothered checkmate with the knight!"@, "Exploits the weak back rank."@, "Delivers a powerful double check."@, "Unleashes a discovered check against the king."@, "Unleashes a discovered attack from behind."@, "Forks multiple enemy pieces simultaneously."@, "Pins an enemy piece to their king or queen."@, "Skewers a high-value piece to win material."@, "Traps an enemy piece with no safe escape."@, "Wins an undefended hanging piece."@, "Promotes to a new queen."@, "Advances a dangerous passed pawn."@, "Best tactical continuation."@]
}

/// An explanation is the best move's SAN and a colon (when given), then the
/// sentence of the most specific motif among the tags: whenever the tags
/// hold motif `k` and none before it, that motif's sentence follows the
/// prefix, and with no motif at all the generic sentence does.  Different
/// motifs have different sentences, so the explanation tells which motif
/// led.
pub proof fn law_explanation_names_leading_motif(tags: Seq<Seq<char>>, best_san: Option<Seq<char>>, k: int)
    ensures
        0 <= k < 12 && tags.contains(motif_priority()[k]) && (forall|j: int| 0 <= j < k ==> !tags.contains(#[trigger] motif_priority()[j]))
            ==> spec_explanation(tags, best_san) == (match best_san {
                Some(san) => san + ": "@,
                None => Seq::<char>::empty(),
            }) + motif_sentences()[k],
        (forall|j: int| 0 <= j < 12 ==> !tags.contains(#[trigger] motif_priority()[j]))
            ==> spec_explanation(tags, best_san) == (match best_san {
                Some(san) => san + ": "@,
                None => Seq::<char>::empty(),
            }) + motif_sentences()[12],
        forall|i: int, j: int| 0 <= i < j < 13 ==> #[trigger] motif_sentences()[i] != #[trigger] motif_sentences()[j],
{
    reveal_strlit("Smothered Mate");
    reveal_strlit("Back Rank");
    reveal_strlit("Double Check");
    reveal_strlit("Discovered Check");
    reveal_strlit("Discovered Attack");
    reveal_strlit("Fork");
    reveal_strlit("Pin");
    reveal_strlit("Skewer");
    reveal_strlit("Trapped Piece");
    reveal_strlit("Hanging Piece");
    reveal_strlit("Pawn Promotion");
    reveal_strlit("Advanced Passed Pawn");
    reveal_strlit("Delivers a smothered checkmate with the knight!");
    reveal_strlit("Exploits the weak back rank.");
    reveal_strlit("Delivers a powerful double check.");
    reveal_strlit("Unleashes a discovered check against the king.");
    reveal_strlit("Unleashes a discovered attack from behind.");
    reveal_strlit("Forks multiple enemy pieces simultaneously.");
    reveal_strlit("Pins an enemy piece to their king or queen.");
    reveal_strlit("Skewers a high-value piece to win material.");
    reveal_strlit("Traps an enemy piece with no safe escape.");
    reveal_strlit("Wins an undefended hanging piece.");
    reveal_strlit("Promotes to a new queen.");
    reveal_strlit("Advances a dangerous passed pawn.");
    reveal_strlit("Best tactical continuation.");
    if 0 <= k < 12 && tags.contains(motif_priority()[k]) && (forall|j: int| 0 <= j < k ==> !tags.contains(#[trigger] motif_priority()[j])) {
        let m = motif_priority();
        assert(k >= 1 ==> !tags.contains(m[0]));
        assert(k >= 2 ==> !tags.contains(m[1]));
        assert(k >= 3 ==> !tags.contains(m[2]));
        assert(k >= 4 ==> !tags.contains(m[3]));
        assert(k >= 5 ==> !tags.contains(m[4]));
        assert(k >= 6 ==> !tags.contains(m[5]));
        assert(k >= 7 ==> !tags.contains(m[6]));
        assert(k >= 8 ==> !tags.contains(m[7]));
        assert(k >= 9 ==> !tags.contains(m[8]));
        assert(k >= 10 ==> !tags.contains(m[9]));
        assert(k >= 11 ==> !tags.contains(m[10]));
    }
    if forall|j: int| 0 <= j < 12 ==> !tags.contains(#[trigger] motif_priority()[j]) {
        let m = motif_priority();
        assert(!tags.contains(m[0]) && !tags.contains(m[1]) && !tags.contains(m[2]) && !tags.contains(m[3]));
        assert(!tags.contains(m[4]) && !tags.contains(m[5]) && !tags.contains(m[6]) && !tags.contains(m[7]));
        assert(!tags.contains(m[8]) && !tags.contains(m[9]) && !tags.contains(m[10]) && !tags.contains(m[11]));
    }
    let t = motif_sentences();
    assert forall|i: int, j: int| 0 <= i < j < 13 implies #[trigger] t[i] != #[trigger] t[j] by {
        assert(t[i].len() != t[j].len() || t[i][0] != t[j][0]);
    }
}

fn body_for(tags: &[String]) -> (r: &'static str)
    ensures
        r@ == explanation_body(string_views(tags@)),
{
    if list_contains(tags, "Smothered Mate") {
        "Delivers a smothered checkmate with the knight!"
    } else if list_contains(tags, "Back Rank") {
        "Exploits the weak back rank."
    } else if list_contains(tags, "Double Check") {
        "Delivers a powerful double check."
    } else if list_contains(tags, "Discovered Check") {
        "Unleashes a discovered check against the king."
    } else if list_contains(tags, "Discovered Attack") {
        "Unleashes a discovered attack from behind."
    } else if list_contains(tags, "Fork") {
        "Forks multiple enemy pieces simultaneously."
    } else if list_contains(tags, "Pin") {
        "Pins an enemy piece to their king or queen."
    } else if list_contains(tags, "Skewer") {
        "Skewers a high-value piece to win material."
    } else if list_contains(tags, "Trapped Piece") {
        "Traps an enemy piece with no safe escape."
    } else if list_contains(tags, "Hanging Piece") {
        "Wins an undefended hanging piece."
    } else if list_contains(tags, "Pawn Promotion") {
        "Promotes to a new queen."
    } else if list_contains(tags, "Advanced Passed Pawn") {
        "Advances a dangerous passed pawn."
    } else {
        "Best tactical continuation."
    }
}

impl GameAnalyzer {
    /// A one-line explanation of the best move: its SAN and a colon (when
    /// given), then the sentence for the most specific motif among the tags.
    pub fn generate_explanation(tags: &[String], best_san: Option<&str>) -> (r: String)
        ensures
            r@ == spec_explanation(string_views(tags@), opt_str_view(best_san)),
    {
        let mut out = match best_san {
            Some(san) => {
                let mut p = san.to_string();
                p.append(": ");
                p
            },
            None => String::new(),
        };
        out.append(body_for(tags));
        out
    }

    /// The pawn motif of a move as a label: "Pawn Promotion", or "Advanced
    /// Passed Pawn" for a pawn reaching the opponent's last two ranks.
    pub fn detect_passed_pawn_or_promotion(best_m: &Move, turn: Color) -> (r: Option<String>)
        requires
            best_m.wf(),
        ensures
            match spec_pawn_motif(*best_m, turn) {
                Some(m) => r matches Some(s) && s@ == pawn_motif_label(m),
                None => r is None,
            },
    {
        match Self::detect_pawn_motif(best_m, turn) {
            Some(PawnMotif::Promotion) => Some("Pawn Promotion".to_string()),
            Some(PawnMotif::AdvancedPassedPawn) => Some("Advanced Passed Pawn".to_string()),
            None => None,
        }
    }
}

} // verus!
