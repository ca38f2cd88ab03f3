//! The defaults and limits that the trainer's HTTP requests are read with.

use vstd::prelude::*;
use crate::models::{AllPuzzlesQuery, EngineEvalRequest, ReviewQuery, SolveAttemptRequest};
use crate::srs::{spec_quality, Sm2Engine};
use crate::text::{trim_class, trim_str, unicode_lowercase, to_lowercase, CharClass};

verus! {

/// The deepest search a client may ask of the engine.
pub const MAX_EVAL_DEPTH: u32 = 24;
/// The most principal variations a client may ask of the engine.
pub const MAX_MULTI_PV: u32 = 5;

/// A user name as typed, without surrounding whitespace; `None` where
/// nothing is left.
pub open spec fn spec_clean_username(raw: Seq<char>) -> Option<Seq<char>> {
    let t = trim_class(raw, CharClass::Whitespace);
    if t.len() == 0 { None } else { Some(t) }
}

/// Trims a user name and refuses an empty one.
pub fn clean_username(raw: &str) -> (r: Option<String>)
    ensures
        match r {
            Some(s) => spec_clean_username(raw@) == Some(s@),
            None => spec_clean_username(raw@) is None,
        },
{
    let t = trim_str(raw);
    if t.as_str().unicode_len() == 0 {
        None
    } else {
        Some(t)
    }
}

/// The key under which an import's progress is kept: the trimmed name in
/// lower case.
pub fn status_key(username: &str) -> (r: String)
    ensures
        r@ == unicode_lowercase(trim_class(username@, CharClass::Whitespace)),
{
    let t = trim_str(username);
    to_lowercase(t.as_str())
}

/// The grade of a solve attempt: the client's own grade, capped at 5, or
/// else the grade that the attempt earns.
pub fn solve_quality(req: &SolveAttemptRequest) -> (q: u8)
    ensures
        q == match req.quality {
            Some(g) => if g < 5 { g } else { 5 },
            None => spec_quality(req.success, req.hints_used as int, req.time_taken_ms as int),
        },
        q <= 5,
{
    match req.quality {
        Some(g) => if g < 5 { g } else { 5 },
        None => Sm2Engine::calculate_quality(req.success, req.hints_used, req.time_taken_ms),
    }
}

/// Search depth and number of lines for an evaluation request: 14 and 3
/// unless asked, and never more than 24 and 5.
pub fn engine_limits(req: &EngineEvalRequest) -> (r: (u32, u32))
    ensures
        r.0 == {
            let d = match req.depth { Some(d) => d, None => 14 };
            if d < MAX_EVAL_DEPTH { d } else { MAX_EVAL_DEPTH }
        },
        r.1 == {
            let m = match req.multi_pv { Some(m) => m, None => 3 };
            if m < MAX_MULTI_PV { m } else { MAX_MULTI_PV }
        },
{
    let d = match req.depth { Some(d) => d, None => 14 };
    let m = match req.multi_pv { Some(m) => m, None => 3 };
    (if d < MAX_EVAL_DEPTH { d } else { MAX_EVAL_DEPTH }, if m < MAX_MULTI_PV { m } else { MAX_MULTI_PV })
}

/// How many due puzzles a review request gets: 20 unless asked.
pub fn review_limit(q: &ReviewQuery) -> (r: i64)
    ensures
        r == match q.limit { Some(l) => l, None => 20 },
{
    match q.limit {
        Some(l) => l,
        None => 20,
    }
}

/// The page of a puzzle listing: 50 puzzles from the first unless asked.
pub fn listing_page(q: &AllPuzzlesQuery) -> (r: (i64, i64))
    ensures
        r.0 == match q.limit { Some(l) => l, None => 50 },
        r.1 == match q.offset { Some(o) => o, None => 0 },
{
    let limit = match q.limit { Some(l) => l, None => 50 };
    let offset = match q.offset { Some(o) => o, None => 0 };
    (limit, offset)
}

} // verus!
