//! Reading the engine's UCI output: `info ... pv ...` lines and the final
//! `bestmove`, gathered into an evaluation.

use vstd::prelude::*;
use crate::models::{EngineEvalResponse, MoveEval};
use crate::text::{chars_contain, chars_of, has_part, split_words, string_from_chars, string_views, trim_class, trim_class_exec, words, CharClass};

verus! {

// ---------------------------------------------------------------------------
// Decimal numbers, as `str::parse` reads them.

pub open spec fn is_digit(c: char) -> bool {
    '0' <= c && c <= '9'
}

pub open spec fn all_digits(s: Seq<char>) -> bool {
    forall|i: int| 0 <= i < s.len() ==> is_digit(#[trigger] s[i])
}

/// The value of a string of decimal digits.
pub open spec fn digits_value(s: Seq<char>) -> int
    decreases s.len(),
{
    if s.len() == 0 {
        0
    } else {
        digits_value(s.drop_last()) * 10 + (s.last() as int - '0' as int)
    }
}

/// An optional sign and the digits after it: (negative, digits).
pub open spec fn split_sign(s: Seq<char>, signed: bool) -> (bool, Seq<char>) {
    if s.len() > 0 && s[0] == '+' {
        (false, s.drop_first())
    } else if signed && s.len() > 0 && s[0] == '-' {
        (true, s.drop_first())
    } else {
        (false, s)
    }
}

/// `str::parse::<u32>()`: an optional `+` and at least one digit, within
/// range.
pub open spec fn spec_parse_u32(s: Seq<char>) -> Option<u32> {
    let (neg, d) = split_sign(s, false);
    if d.len() > 0 && all_digits(d) && digits_value(d) <= u32::MAX {
        Some(digits_value(d) as u32)
    } else {
        None
    }
}

/// `str::parse::<i32>()`: an optional sign and at least one digit, within
/// range.
pub open spec fn spec_parse_i32(s: Seq<char>) -> Option<i32> {
    let (neg, d) = split_sign(s, true);
    let v = if neg { -digits_value(d) } else { digits_value(d) };
    if d.len() > 0 && all_digits(d) && i32::MIN <= v <= i32::MAX {
        Some(v as i32)
    } else {
        None
    }
}

proof fn lemma_digits_value_nonneg(s: Seq<char>)
    requires
        all_digits(s),
    ensures
        digits_value(s) >= 0,
    decreases s.len(),
{
    if s.len() > 0 {
        lemma_digits_value_nonneg(s.drop_last());
    }
}

/// The value of `v[start..]` when all of it is digits, or `None` when a
/// non-digit occurs, the digits are missing, or the value exceeds `limit`.
fn digits_up_to(v: &Vec<char>, start: usize, limit: u64) -> (r: Option<u64>)
    requires
        start <= v@.len(),
        limit <= u32::MAX + 1,
    ensures
        ({
            let d = v@.subrange(start as int, v@.len() as int);
            match r {
                Some(x) => d.len() > 0 && all_digits(d) && x == digits_value(d) && x <= limit,
                None => !(d.len() > 0 && all_digits(d) && digits_value(d) <= limit),
            }
        }),
{
    if start >= v.len() {
        return None;
    }
    let mut acc: u64 = 0;
    let mut i = start;
    while i < v.len()
        invariant
            start <= i <= v@.len(),
            limit <= u32::MAX + 1,
            all_digits(v@.subrange(start as int, i as int)),
            acc == digits_value(v@.subrange(start as int, i as int)),
            acc <= limit,
        decreases v@.len() - i,
    {
        let c = v[i];
        assert(v@.subrange(start as int, i + 1).drop_last() =~= v@.subrange(start as int, i as int));
        if !('0' <= c && c <= '9') {
            proof {
                let d = v@.subrange(start as int, v@.len() as int);
                assert(d[i - start] == c);
            }
            return None;
        }
        let digit = (c as u32 - '0' as u32) as u64;
        let next = acc * 10 + digit;
        if next > limit {
            proof {
                let d = v@.subrange(start as int, v@.len() as int);
                if all_digits(d) {
                    lemma_digits_prefix_monotone(d, i + 1 - start);
                    assert(d.subrange(0, i + 1 - start) =~= v@.subrange(start as int, i + 1));
                }
            }
            return None;
        }
        acc = next;
        i = i + 1;
    }
    Some(acc)
}

/// Over digits, a longer prefix never has a smaller value.
proof fn lemma_digits_prefix_monotone(d: Seq<char>, k: int)
    requires
        all_digits(d),
        0 <= k <= d.len(),
    ensures
        digits_value(d.subrange(0, k)) <= digits_value(d),
    decreases d.len() - k,
{
    if k < d.len() {
        lemma_digits_prefix_monotone(d, k + 1);
        assert(d.subrange(0, k + 1).drop_last() =~= d.subrange(0, k));
        lemma_digits_value_nonneg(d.subrange(0, k));
    } else {
        assert(d.subrange(0, k) =~= d);
    }
}

/// `str::parse::<u32>()`.
pub fn parse_u32(v: &Vec<char>) -> (r: Option<u32>)
    ensures
        r == spec_parse_u32(v@),
{
    let start: usize = if v.len() > 0 && v[0] == '+' { 1 } else { 0 };
    assert(split_sign(v@, false).1 =~= v@.subrange(start as int, v@.len() as int));
    match digits_up_to(v, start, 4294967295) {
        Some(x) => Some(x as u32),
        None => None,
    }
}

/// `str::parse::<i32>()`.
pub fn parse_i32(v: &Vec<char>) -> (r: Option<i32>)
    ensures
        r == spec_parse_i32(v@),
{
    let neg = v.len() > 0 && v[0] == '-';
    let start: usize = if v.len() > 0 && (v[0] == '+' || v[0] == '-') { 1 } else { 0 };
    assert(split_sign(v@, true).1 =~= v@.subrange(start as int, v@.len() as int));
    assert(split_sign(v@, true).0 == neg);
    let limit: u64 = if neg { 2147483648 } else { 2147483647 };
    match digits_up_to(v, start, limit) {
        Some(x) => {
            if neg {
                Some((0i64 - x as i64) as i32)
            } else {
                Some(x as i32)
            }
        },
        None => {
            proof {
                let d = v@.subrange(start as int, v@.len() as int);
                if d.len() > 0 && all_digits(d) {
                    lemma_digits_value_nonneg(d);
                }
            }
            None
        },
    }
}

} // verus!

verus! {

// ---------------------------------------------------------------------------
// `info` lines.

pub open spec fn starts_with(s: Seq<char>, p: Seq<char>) -> bool {
    p.len() <= s.len() && s.subrange(0, p.len() as int) == p
}

/// What an `info` line reports: (multipv index, centipawn score, mate
/// distance, principal variation).
pub type InfoFields = (u32, Option<i32>, Option<i32>, Seq<Seq<char>>);

/// Reads the words of an `info` line from `i` on: `multipv N` sets the line
/// index, `score cp N` and `score mate N` the score, and `pv` starts the
/// principal variation, which runs to the end of the line.  Unreadable
/// numbers leave the index unchanged and the score absent.
pub open spec fn scan_info(ws: Seq<Seq<char>>, i: int, idx: u32, cp: Option<i32>, mate: Option<i32>) -> InfoFields
    decreases ws.len() - i,
{
    if i < 0 || i >= ws.len() {
        (idx, cp, mate, Seq::empty())
    } else if ws[i] == "multipv"@ && i + 1 < ws.len() {
        let next = match spec_parse_u32(ws[i + 1]) {
            Some(v) => v,
            None => idx,
        };
        scan_info(ws, i + 2, next, cp, mate)
    } else if ws[i] == "score"@ && i + 2 < ws.len() {
        if ws[i + 1] == "cp"@ {
            scan_info(ws, i + 3, idx, spec_parse_i32(ws[i + 2]), mate)
        } else if ws[i + 1] == "mate"@ {
            scan_info(ws, i + 3, idx, cp, spec_parse_i32(ws[i + 2]))
        } else {
            scan_info(ws, i + 3, idx, cp, mate)
        }
    } else if ws[i] == "pv"@ {
        (idx, cp, mate, ws.subrange(i + 1, ws.len() as int))
    } else {
        scan_info(ws, i + 1, idx, cp, mate)
    }
}

/// What a line of engine output says.
pub enum EngineLine {
    /// The search ended; the best move, when the line names one.
    BestMove(Option<String>),
    /// A principal variation: multipv index, scores, and its moves (at least one).
    Info { pv_index: u32, score_cp: Option<i32>, mate_in: Option<i32>, pv: Vec<String> },
    /// Anything else.
    Other,
}

/// The meaning of a line of engine output, read after trimming: a
/// `bestmove` line with the word after it; an `info` line that has a ` pv `
/// part and at least one move in it; anything else.
pub open spec fn engine_line_means(line: Seq<char>, r: EngineLine) -> bool {
    let t = trim_class(line, CharClass::Whitespace);
    let ws = words(t);
    if starts_with(t, "bestmove "@) {
        r matches EngineLine::BestMove(b) && (if ws.len() >= 2 {
            b matches Some(m) && m@ == ws[1]
        } else {
            b is None
        })
    } else if starts_with(t, "info "@) && has_part(t, " pv "@) && scan_info(ws, 0, 1, None, None).3.len() > 0 {
        let f = scan_info(ws, 0, 1, None, None);
        r matches EngineLine::Info { pv_index, score_cp, mate_in, pv } && pv_index == f.0 && score_cp
            == f.1 && mate_in == f.2 && string_views(pv@) == f.3
    } else {
        r is Other
    }
}

fn words_equal(w: &Vec<char>, lit: &str) -> (r: bool)
    ensures
        r == (w@ == lit@),
{
    string_from_chars(w) == lit.to_string()
}

fn has_prefix(v: &Vec<char>, p: &str) -> (r: bool)
    ensures
        r == starts_with(v@, p@),
{
    let pc = chars_of(p);
    if pc.len() > v.len() {
        return false;
    }
    let mut i: usize = 0;
    while i < pc.len()
        invariant
            pc@ == p@,
            pc@.len() <= v@.len(),
            i <= pc@.len(),
            forall|j: int| 0 <= j < i ==> v@[j] == pc@[j],
        decreases pc@.len() - i,
    {
        if v[i] != pc[i] {
            assert(v@.subrange(0, pc@.len() as int)[i as int] != pc@[i as int]);
            return false;
        }
        i = i + 1;
    }
    assert(v@.subrange(0, pc@.len() as int) =~= pc@);
    true
}

/// Reads the words of an `info` line.
fn scan_info_exec(ws: &Vec<Vec<char>>) -> (r: (u32, Option<i32>, Option<i32>, Vec<String>))
    ensures
        ({
            let wv = ws@.map_values(|w: Vec<char>| w@);
            let f = scan_info(wv, 0, 1, None, None);
            r.0 == f.0 && r.1 == f.1 && r.2 == f.2 && string_views(r.3@) == f.3
        }),
{
    let ghost wv = ws@.map_values(|w: Vec<char>| w@);
    let mut idx: u32 = 1;
    let mut cp: Option<i32> = None;
    let mut mate: Option<i32> = None;
    let mut i: usize = 0;
    let n = ws.len();
    while i < n
        invariant
            n == ws@.len(),
            wv == ws@.map_values(|w: Vec<char>| w@),
            i <= n + 1,
            scan_info(wv, i as int, idx, cp, mate) == scan_info(wv, 0, 1, None, None),
        decreases n + 1 - i,
    {
        if words_equal(&ws[i], "multipv") && n - i > 1 {
            if let Some(v) = parse_u32(&ws[i + 1]) {
                idx = v;
            }
            i = i + 2;
        } else if words_equal(&ws[i], "score") && n - i > 2 {
            if words_equal(&ws[i + 1], "cp") {
                cp = parse_i32(&ws[i + 2]);
            } else if words_equal(&ws[i + 1], "mate") {
                mate = parse_i32(&ws[i + 2]);
            }
            i = i + 3;
        } else if words_equal(&ws[i], "pv") {
            let mut pv: Vec<String> = Vec::new();
            let mut j = i + 1;
            while j < n
                invariant
                    n == ws@.len(),
                    wv == ws@.map_values(|w: Vec<char>| w@),
                    i + 1 <= j <= n,
                    string_views(pv@) == wv.subrange(i + 1, j as int),
                decreases n - j,
            {
                let s = string_from_chars(&ws[j]);
                let ghost old_pv = pv@;
                pv.push(s);
                assert(string_views(pv@) =~= string_views(old_pv).push(s@));
                assert(wv.subrange(i + 1, j + 1) =~= wv.subrange(i + 1, j as int).push(wv[j as int]));
                j = j + 1;
            }
            return (idx, cp, mate, pv);
        } else {
            i = i + 1;
        }
    }
    (idx, cp, mate, Vec::new())
}

/// Reads one line of engine output.
pub fn read_engine_line(line: &str) -> (r: EngineLine)
    ensures
        engine_line_means(line@, r),
{
    let t = trim_class_exec(&chars_of(line), CharClass::Whitespace);
    let ws = split_words(&t);
    let ghost wv = ws@.map_values(|w: Vec<char>| w@);
    if has_prefix(&t, "bestmove ") {
        if ws.len() >= 2 {
            let m = string_from_chars(&ws[1]);
            assert(wv[1] == ws@[1]@);
            return EngineLine::BestMove(Some(m));
        }
        return EngineLine::BestMove(None);
    }
    if has_prefix(&t, "info ") && chars_contain(&t, " pv ") {
        let (pv_index, score_cp, mate_in, pv) = scan_info_exec(&ws);
        if pv.len() > 0 {
            return EngineLine::Info { pv_index, score_cp, mate_in, pv };
        }
    }
    EngineLine::Other
}

} // verus!

verus! {

// ---------------------------------------------------------------------------
// Gathering an evaluation.

/// Keys strictly increase along the entries.
pub open spec fn keys_increasing<V>(es: Seq<(u32, V)>) -> bool {
    forall|i: int, j: int| 0 <= i < j < es.len() ==> (#[trigger] es[i]).0 < (#[trigger] es[j]).0
}

/// The entries with `(k, v)` put in key order, replacing an entry of key `k`.
pub open spec fn keyed_insert<V>(es: Seq<(u32, V)>, k: u32, v: V) -> Seq<(u32, V)>
    decreases es.len(),
{
    if es.len() == 0 {
        seq![(k, v)]
    } else if es[0].0 == k {
        seq![(k, v)] + es.drop_first()
    } else if es[0].0 > k {
        seq![(k, v)] + es
    } else {
        seq![es[0]] + keyed_insert(es.drop_first(), k, v)
    }
}

proof fn lemma_keyed_insert_at<V>(es: Seq<(u32, V)>, k: u32, v: V, idx: int)
    requires
        keys_increasing(es),
        0 <= idx <= es.len(),
        forall|j: int| 0 <= j < idx ==> (#[trigger] es[j]).0 < k,
        idx < es.len() ==> es[idx].0 >= k,
    ensures
        keyed_insert(es, k, v) == if idx < es.len() && es[idx].0 == k {
            es.update(idx, (k, v))
        } else {
            es.insert(idx, (k, v))
        },
    decreases es.len(),
{
    if es.len() == 0 {
        assert(es.insert(0, (k, v)) =~= seq![(k, v)]);
    } else if idx == 0 {
        if es[0].0 == k {
            assert(seq![(k, v)] + es.drop_first() =~= es.update(0, (k, v)));
        } else {
            assert(seq![(k, v)] + es =~= es.insert(0, (k, v)));
        }
    } else {
        let rest = es.drop_first();
        assert(es[0].0 < k);
        assert forall|i: int, j: int| 0 <= i < j < rest.len() implies (#[trigger] rest[i]).0 < (#[trigger] rest[j]).0 by {
            assert(rest[i] == es[i + 1] && rest[j] == es[j + 1]);
        }
        assert forall|j: int| 0 <= j < idx - 1 implies (#[trigger] rest[j]).0 < k by {
            assert(rest[j] == es[j + 1]);
        }
        lemma_keyed_insert_at(rest, k, v, idx - 1);
        if idx < es.len() && es[idx].0 == k {
            assert(seq![es[0]] + rest.update(idx - 1, (k, v)) =~= es.update(idx, (k, v)));
        } else {
            assert(seq![es[0]] + rest.insert(idx - 1, (k, v)) =~= es.insert(idx, (k, v)));
        }
    }
}

/// Inserting in key order keeps the keys strictly increasing, and afterwards
/// `k` is present with `v` while every other key keeps its value.
pub proof fn law_keyed_insert<V>(es: Seq<(u32, V)>, k: u32, v: V)
    requires
        keys_increasing(es),
    ensures
        keys_increasing(keyed_insert(es, k, v)),
        keyed_insert(es, k, v).contains((k, v)),
        forall|e: (u32, V)| es.contains(e) && e.0 != k ==> #[trigger] keyed_insert(es, k, v).contains(e),
        forall|e: (u32, V)| #[trigger] keyed_insert(es, k, v).contains(e) ==> e == (k, v) || es.contains(e),
    decreases es.len(),
{
    let r = keyed_insert(es, k, v);
    if es.len() == 0 {
        assert(r[0] == (k, v));
    } else if es[0].0 == k {
        assert(r[0] == (k, v));
        assert forall|i: int, j: int| 0 <= i < j < r.len() implies (#[trigger] r[i]).0 < (#[trigger] r[j]).0 by {
            if i > 0 {
                assert(r[i] == es[i]);
            }
            assert(r[j] == es[j]);
        }
        assert forall|e: (u32, V)| es.contains(e) && e.0 != k implies #[trigger] r.contains(e) by {
            let i = choose|i: int| 0 <= i < es.len() && es[i] == e;
            assert(i > 0);
            assert(r[i] == e);
        }
        assert forall|e: (u32, V)| #[trigger] r.contains(e) implies e == (k, v) || es.contains(e) by {
            let i = choose|i: int| 0 <= i < r.len() && r[i] == e;
            if i > 0 {
                assert(es[i] == e);
            }
        }
    } else if es[0].0 > k {
        assert(r[0] == (k, v));
        assert forall|i: int, j: int| 0 <= i < j < r.len() implies (#[trigger] r[i]).0 < (#[trigger] r[j]).0 by {
            if i > 0 {
                assert(r[i] == es[i - 1]);
            }
            assert(r[j] == es[j - 1]);
            assert(es[0].0 <= es[j - 1].0);
        }
        assert forall|e: (u32, V)| es.contains(e) && e.0 != k implies #[trigger] r.contains(e) by {
            let i = choose|i: int| 0 <= i < es.len() && es[i] == e;
            assert(r[i + 1] == e);
        }
        assert forall|e: (u32, V)| #[trigger] r.contains(e) implies e == (k, v) || es.contains(e) by {
            let i = choose|i: int| 0 <= i < r.len() && r[i] == e;
            if i > 0 {
                assert(es[i - 1] == e);
            }
        }
    } else {
        let rest = es.drop_first();
        assert forall|i: int, j: int| 0 <= i < j < rest.len() implies (#[trigger] rest[i]).0 < (#[trigger] rest[j]).0 by {
            assert(rest[i] == es[i + 1] && rest[j] == es[j + 1]);
        }
        law_keyed_insert(rest, k, v);
        let rr = keyed_insert(rest, k, v);
        assert(r == seq![es[0]] + rr);
        assert forall|i: int, j: int| 0 <= i < j < r.len() implies (#[trigger] r[i]).0 < (#[trigger] r[j]).0 by {
            assert(r[j] == rr[j - 1]);
            assert(rr.contains(rr[j - 1]));
            if i > 0 {
                assert(r[i] == rr[i - 1]);
            } else {
                if rr[j - 1] != (k, v) {
                    let q = choose|q: int| 0 <= q < rest.len() && rest[q] == rr[j - 1];
                    assert(es[q + 1] == rest[q]);
                }
            }
        }
        assert(r.contains((k, v))) by {
            let q = choose|q: int| 0 <= q < rr.len() && rr[q] == (k, v);
            assert(r[q + 1] == (k, v));
        }
        assert forall|e: (u32, V)| es.contains(e) && e.0 != k implies #[trigger] r.contains(e) by {
            let i = choose|i: int| 0 <= i < es.len() && es[i] == e;
            if i == 0 {
                assert(r[0] == e);
            } else {
                assert(rest[i - 1] == e);
                assert(rr.contains(e));
                let q = choose|q: int| 0 <= q < rr.len() && rr[q] == e;
                assert(r[q + 1] == e);
            }
        }
        assert forall|e: (u32, V)| #[trigger] r.contains(e) implies e == (k, v) || es.contains(e) by {
            let i = choose|i: int| 0 <= i < r.len() && r[i] == e;
            if i == 0 {
                assert(es[0] == e);
            } else {
                assert(rr[i - 1] == e);
                assert(rr.contains(e));
                if e != (k, v) {
                    let q = choose|q: int| 0 <= q < rest.len() && rest[q] == e;
                    assert(es[q + 1] == e);
                }
            }
        }
    }
}

/// The principal variations gathered so far, keyed and ordered by multipv
/// index, with the score of the first one.
pub struct EvalCollector {
    pub entries: Vec<(u32, MoveEval)>,
    pub best_cp: Option<i32>,
    pub best_mate: Option<i32>,
}

/// The line recorded for a principal variation.
pub open spec fn line_for(cp: Option<i32>, mate: Option<i32>, pv: Vec<String>) -> MoveEval {
    MoveEval { uci: pv@[0], san: None, score_cp: cp, mate_in: mate, pv }
}

impl EvalCollector {
    pub open spec fn wf(&self) -> bool {
        keys_increasing(self.entries@)
    }

    /// Nothing gathered yet.
    pub fn new() -> (r: EvalCollector)
        ensures
            r.wf(),
            r.entries@.len() == 0,
            r.best_cp is None,
            r.best_mate is None,
    {
        EvalCollector { entries: Vec::new(), best_cp: None, best_mate: None }
    }

    /// Records a principal variation: it replaces any earlier one of the
    /// same index, and the first line's score becomes the evaluation.
    pub fn record_info(&mut self, pv_index: u32, score_cp: Option<i32>, mate_in: Option<i32>, pv: Vec<String>)
        requires
            old(self).wf(),
            pv@.len() > 0,
        ensures
            final(self).wf(),
            final(self).entries@ == keyed_insert(old(self).entries@, pv_index, line_for(score_cp, mate_in, pv)),
            pv_index == 1 ==> final(self).best_cp == score_cp && final(self).best_mate == mate_in,
            pv_index != 1 ==> final(self).best_cp == old(self).best_cp && final(self).best_mate == old(self).best_mate,
    {
        proof { law_keyed_insert(self.entries@, pv_index, line_for(score_cp, mate_in, pv)); }
        if pv_index == 1 {
            self.best_cp = score_cp;
            self.best_mate = mate_in;
        }
        let first = pv[0].clone();
        let line = MoveEval { uci: first, san: None, score_cp, mate_in, pv };
        let mut idx: usize = 0;
        while idx < self.entries.len() && self.entries[idx].0 < pv_index
            invariant
                idx <= self.entries@.len(),
                forall|j: int| 0 <= j < idx ==> (#[trigger] self.entries@[j]).0 < pv_index,
            decreases self.entries@.len() - idx,
        {
            idx = idx + 1;
        }
        proof { lemma_keyed_insert_at(self.entries@, pv_index, line, idx as int); }
        if idx < self.entries.len() && self.entries[idx].0 == pv_index {
            self.entries.set(idx, (pv_index, line));
        } else {
            self.entries.insert(idx, (pv_index, line));
        }
    }

    /// Takes in one line of engine output; at the end of the search
    /// (`bestmove`) hands back the best move, empty when the line names none.
    pub fn feed_line(&mut self, line: &str) -> (r: Option<String>)
        requires
            old(self).wf(),
        ensures
            final(self).wf(),
            exists|l: EngineLine| engine_line_means(line@, l) && match l {
                EngineLine::BestMove(b) => *final(self) == *old(self) && (r matches Some(m) && m@ == match b {
                    Some(s) => s@,
                    None => Seq::<char>::empty(),
                }),
                EngineLine::Info { pv_index, score_cp, mate_in, pv } => r is None
                    && final(self).entries@ == keyed_insert(old(self).entries@, pv_index, line_for(score_cp, mate_in, pv))
                    && (pv_index == 1 ==> final(self).best_cp == score_cp && final(self).best_mate == mate_in)
                    && (pv_index != 1 ==> final(self).best_cp == old(self).best_cp && final(self).best_mate == old(self).best_mate),
                EngineLine::Other => r is None && *final(self) == *old(self),
            },
    {
        let l = read_engine_line(line);
        match l {
            EngineLine::BestMove(b) => {
                let m = match b {
                    Some(s) => s,
                    None => String::new(),
                };
                Some(m)
            },
            EngineLine::Info { pv_index, score_cp, mate_in, pv } => {
                let ghost gpv = pv;
                self.record_info(pv_index, score_cp, mate_in, pv);
                assert(engine_line_means(line@, EngineLine::Info { pv_index, score_cp, mate_in, pv: gpv }));
                None
            },
            EngineLine::Other => None,
        }
    }

    /// The evaluation: the best move, the first line's score, and the lines
    /// in order of their multipv index.
    pub fn finish(self, fen: &str, depth: u32, best_move: String) -> (r: EngineEvalResponse)
        ensures
            r.fen@ == fen@,
            r.depth == depth,
            r.best_move == best_move,
            r.score_cp == self.best_cp,
            r.mate_in == self.best_mate,
            r.lines@ == self.entries@.map_values(|e: (u32, MoveEval)| e.1),
    {
        let ghost entries = self.entries@;
        let mut lines: Vec<MoveEval> = Vec::new();
        let mut rest = self.entries;
        while rest.len() > 0
            invariant
                lines@ + rest@.map_values(|e: (u32, MoveEval)| e.1) == entries.map_values(|e: (u32, MoveEval)| e.1),
            decreases rest@.len(),
        {
            let ghost before = rest@;
            let (_, e) = rest.remove(0);
            lines.push(e);
            assert(before.map_values(|e: (u32, MoveEval)| e.1) =~= seq![before[0].1] + rest@.map_values(|e: (u32, MoveEval)| e.1));
            assert(lines@ + rest@.map_values(|e: (u32, MoveEval)| e.1) =~= lines@.drop_last() + before.map_values(|e: (u32, MoveEval)| e.1));
        }
        assert(lines@ + rest@.map_values(|e: (u32, MoveEval)| e.1) =~= lines@);
        EngineEvalResponse {
            fen: fen.to_string(),
            depth,
            best_move,
            score_cp: self.best_cp,
            mate_in: self.best_mate,
            lines,
        }
    }
}

} // verus!
