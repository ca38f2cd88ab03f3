//! Reading a game's moves and opening name out of its PGN.

use vstd::prelude::*;
use crate::analyzer::GameAnalyzer;
use crate::text::{
    string_views,
    chars_of, copy_range, split_words, string_from_chars, trim_class, trim_class_exec, words,
    CharClass,
};

verus! {

/// What `Regex::replace_all` makes of `text` with every match of `pattern`
/// replaced by `replacement`, or `None` when the pattern does not compile.
pub uninterp spec fn regex_replaced(pattern: Seq<char>, text: Seq<char>, replacement: Seq<char>) -> Option<Seq<char>>;

/// Capture group 1 of the leftmost match of `pattern` in `text`, or `None`
/// when the pattern does not compile, does not match, or the group does not
/// take part in the match.
pub uninterp spec fn regex_capture(pattern: Seq<char>, text: Seq<char>) -> Option<Seq<char>>;

/// Calls `Regex::new` and `Regex::replace_all`.  Claims the result is
/// `regex_replaced(pattern, text, replacement)`.
#[verifier::external_body]
fn regex_replace_all(pattern: &str, text: &str, replacement: &str) -> (r: Option<String>)
    ensures
        match r {
            Some(s) => regex_replaced(pattern@, text@, replacement@) == Some(s@),
            None => regex_replaced(pattern@, text@, replacement@) is None,
        },
{
    Some(regex::Regex::new(pattern).ok()?.replace_all(text, replacement).into_owned())
}

/// Calls `Regex::new`, `Regex::captures` and `Captures::get(1)`.  Claims the
/// result is `regex_capture(pattern, text)`.
#[verifier::external_body]
fn regex_first_group(pattern: &str, text: &str) -> (r: Option<String>)
    ensures
        match r {
            Some(s) => regex_capture(pattern@, text@) == Some(s@),
            None => regex_capture(pattern@, text@) is None,
        },
{
    Some(regex::Regex::new(pattern).ok()?.captures(text)?.get(1)?.as_str().to_string())
}

/// A brace comment such as `{[%clk 0:03:00]}`.
pub open spec fn comment_pattern() -> Seq<char> {
    "\\{[^}]*\\}"@
}

/// A move number such as `12.` or `12...` at a word boundary.
pub open spec fn move_number_pattern() -> Seq<char> {
    "\\b\\d+\\.+"@
}

/// The Chess.com opening URL header, capturing the opening slug.
pub open spec fn eco_url_pattern() -> Seq<char> {
    "\\[ECOUrl\\s+\"https://www.chess.com/openings/([^\"]+)\""@
}

/// The Opening header, capturing its value.
pub open spec fn opening_pattern() -> Seq<char> {
    "\\[Opening\\s+\"([^\"]+)\"\\]"@
}

/// The first line feed at or after `i` (below `hi`), or `hi`.
pub open spec fn line_end(s: Seq<char>, i: int, hi: int) -> int
    decreases hi - i,
{
    if i >= hi || s[i] == '\n' {
        i
    } else {
        line_end(s, i + 1, hi)
    }
}

pub proof fn lemma_line_end_bounds(s: Seq<char>, i: int, hi: int)
    requires
        i <= hi,
    ensures
        i <= line_end(s, i, hi) <= hi,
    decreases hi - i,
{
    if i < hi && s[i] != '\n' {
        lemma_line_end_bounds(s, i + 1, hi);
    }
}

/// A header line: `[Tag "value"]`.
pub open spec fn is_header(t: Seq<char>) -> bool {
    t.len() > 0 && t[0] == '[' && t[t.len() - 1] == ']'
}

/// The movetext of `s[i..hi]`: every line, trimmed, that is neither empty
/// nor a header, each preceded by a space.
pub open spec fn move_text_from(s: Seq<char>, i: int, hi: int) -> Seq<char>
    decreases hi - i,
{
    if i >= hi {
        Seq::empty()
    } else {
        let e = line_end(s, i, hi);
        proof {
            lemma_line_end_bounds(s, i, hi);
        }
        let t = trim_class(s.subrange(i, e), CharClass::Whitespace);
        (if t.len() == 0 || is_header(t) {
            Seq::empty()
        } else {
            seq![' '] + t
        }) + (if e < hi {
            move_text_from(s, e + 1, hi)
        } else {
            Seq::empty()
        })
    }
}

/// The movetext of a PGN: its non-header lines joined by spaces.
pub open spec fn pgn_move_text(pgn: Seq<char>) -> Seq<char> {
    move_text_from(pgn, 0, pgn.len() as int)
}

/// A game result or an empty token.
pub open spec fn is_result_marker(t: Seq<char>) -> bool {
    t == "1-0"@ || t == "0-1"@ || t == "1/2-1/2"@ || t == "*"@ || t.len() == 0
}

/// The moves among the words: each word without leading and trailing
/// punctuation (other than `+ # = -`), results and empty words dropped.
pub open spec fn keep_moves(ws: Seq<Seq<char>>) -> Seq<Seq<char>>
    decreases ws.len(),
{
    if ws.len() == 0 {
        Seq::empty()
    } else {
        let rest = keep_moves(ws.drop_last());
        let t = trim_class(ws.last(), CharClass::MoveJunk);
        if is_result_marker(t) {
            rest
        } else {
            rest.push(t)
        }
    }
}

/// The SAN moves of a PGN: the movetext with brace comments and move numbers
/// replaced by spaces, split into words, cleaned of punctuation, results
/// dropped.
pub open spec fn spec_pgn_moves(pgn: Seq<char>) -> Seq<Seq<char>> {
    match regex_replaced(comment_pattern(), pgn_move_text(pgn), " "@) {
        Some(a) => match regex_replaced(move_number_pattern(), a, " "@) {
            Some(b) => keep_moves(words(b)),
            None => Seq::empty(),
        },
        None => Seq::empty(),
    }
}

/// No kept move is a game result or empty: whatever result closes the game,
/// none of the moves read is "1-0", "0-1", "1/2-1/2" or "*".
pub proof fn law_moves_hold_no_result(ws: Seq<Seq<char>>)
    ensures
        forall|i: int| 0 <= i < keep_moves(ws).len() ==> {
            let t = #[trigger] keep_moves(ws)[i];
            &&& t != "1-0"@
            &&& t != "0-1"@
            &&& t != "1/2-1/2"@
            &&& t != "*"@
            &&& t.len() > 0
        },
    decreases ws.len(),
{
    if ws.len() > 0 {
        law_moves_hold_no_result(ws.drop_last());
        let rest = keep_moves(ws.drop_last());
        assert forall|i: int| 0 <= i < keep_moves(ws).len() implies {
            let t = #[trigger] keep_moves(ws)[i];
            &&& t != "1-0"@
            &&& t != "0-1"@
            &&& t != "1/2-1/2"@
            &&& t != "*"@
            &&& t.len() > 0
        } by {
            if i < rest.len() {
                assert(keep_moves(ws)[i] == rest[i]);
            }
        }
    }
}

/// The moves of a PGN never include its result.
pub proof fn law_pgn_moves_hold_no_result(pgn: Seq<char>)
    ensures
        forall|i: int| 0 <= i < spec_pgn_moves(pgn).len() ==> {
            let t = #[trigger] spec_pgn_moves(pgn)[i];
            &&& t != "1-0"@
            &&& t != "0-1"@
            &&& t != "1/2-1/2"@
            &&& t != "*"@
            &&& t.len() > 0
        },
{
    match regex_replaced(comment_pattern(), pgn_move_text(pgn), " "@) {
        Some(a) => match regex_replaced(move_number_pattern(), a, " "@) {
            Some(b) => law_moves_hold_no_result(words(b)),
            None => {},
        },
        None => {},
    }
}

/// `s` with every hyphen turned into a space.
pub open spec fn dashes_to_spaces(s: Seq<char>) -> Seq<char> {
    s.map_values(|c: char| if c == '-' { ' ' } else { c })
}

/// The opening of a game: the slug of its Chess.com opening URL with
/// hyphens turned into spaces, or else the value of its Opening header.
pub open spec fn spec_opening(pgn: Seq<char>) -> Option<Seq<char>> {
    match regex_capture(eco_url_pattern(), pgn) {
        Some(slug) => Some(dashes_to_spaces(slug)),
        None => regex_capture(opening_pattern(), pgn),
    }
}

fn append_chars(out: &mut Vec<char>, more: &Vec<char>)
    ensures
        final(out)@ == old(out)@ + more@,
{
    let mut i: usize = 0;
    while i < more.len()
        invariant
            i <= more@.len(),
            out@ == old(out)@ + more@.subrange(0, i as int),
        decreases more@.len() - i,
    {
        out.push(more[i]);
        assert(more@.subrange(0, i + 1) == more@.subrange(0, i as int).push(more@[i as int]));
        i = i + 1;
    }
    assert(more@.subrange(0, more@.len() as int) == more@);
}

/// The first line feed at or after `i`.
fn line_end_exec(v: &Vec<char>, i: usize) -> (r: usize)
    requires
        i <= v@.len(),
    ensures
        r == line_end(v@, i as int, v@.len() as int),
        i <= r <= v@.len(),
{
    let mut j = i;
    while j < v.len() && v[j] != '\n'
        invariant
            i <= j <= v@.len(),
            line_end(v@, i as int, v@.len() as int) == line_end(v@, j as int, v@.len() as int),
        decreases v@.len() - j,
    {
        j = j + 1;
    }
    j
}

/// The movetext of a PGN: its non-header lines, trimmed, each after a space.
pub fn move_text(pgn: &Vec<char>) -> (r: Vec<char>)
    ensures
        r@ == pgn_move_text(pgn@),
{
    let hi = pgn.len();
    let mut out: Vec<char> = Vec::new();
    let mut i: usize = 0;
    while i < hi
        invariant
            hi == pgn@.len(),
            i <= hi,
            out@ + move_text_from(pgn@, i as int, hi as int) == pgn_move_text(pgn@),
        decreases hi - i,
    {
        let e = line_end_exec(pgn, i);
        let line = copy_range(pgn, i, e);
        let t = trim_class_exec(&line, CharClass::Whitespace);
        let ghost piece = if t@.len() == 0 || is_header(t@) { Seq::<char>::empty() } else { seq![' '] + t@ };
        let ghost old_out = out@;
        let header = t.len() > 0 && t[0] == '[' && t[t.len() - 1] == ']';
        if t.len() > 0 && !header {
            out.push(' ');
            append_chars(&mut out, &t);
        }
        assert(out@ == old_out + piece);
        if e < hi {
            assert(move_text_from(pgn@, i as int, hi as int) == piece + move_text_from(pgn@, e + 1, hi as int));
            assert(old_out + (piece + move_text_from(pgn@, e + 1, hi as int)) =~= (old_out + piece) + move_text_from(pgn@, e + 1, hi as int));
            i = e + 1;
        } else {
            assert(move_text_from(pgn@, i as int, hi as int) == piece + Seq::<char>::empty());
            assert(move_text_from(pgn@, hi as int, hi as int) == Seq::<char>::empty());
            assert(old_out + (piece + Seq::<char>::empty()) =~= out@ + move_text_from(pgn@, hi as int, hi as int));
            i = hi;
        }
    }
    assert(out@ + Seq::<char>::empty() =~= out@);
    out
}

/// The opening name in a Chess.com opening slug: hyphens read as spaces.
pub fn opening_from_slug(slug: &str) -> (r: String)
    ensures
        r@ == dashes_to_spaces(slug@),
{
    let chars = chars_of(slug);
    let mut out: Vec<char> = Vec::new();
    let mut i: usize = 0;
    while i < chars.len()
        invariant
            i <= chars@.len(),
            out@ == dashes_to_spaces(chars@.subrange(0, i as int)),
        decreases chars@.len() - i,
    {
        let c = chars[i];
        out.push(if c == '-' { ' ' } else { c });
        assert(dashes_to_spaces(chars@.subrange(0, i + 1)) =~= dashes_to_spaces(chars@.subrange(0, i as int)).push(if c == '-' { ' ' } else { c }));
        i = i + 1;
    }
    assert(chars@.subrange(0, chars@.len() as int) == chars@);
    string_from_chars(&out)
}

/// The moves in a movetext whose comments and move numbers are gone: its
/// whitespace-separated words, cleaned of punctuation, results dropped.
pub fn moves_from_text(text: &str) -> (r: Vec<String>)
    ensures
        string_views(r@) == keep_moves(words(text@)),
{
    let ws = split_words(&chars_of(text));
    let ghost wv = ws@.map_values(|w: Vec<char>| w@);
    let mut moves: Vec<String> = Vec::new();
    let mut i: usize = 0;
    while i < ws.len()
        invariant
            wv == ws@.map_values(|w: Vec<char>| w@),
            i <= ws@.len(),
            string_views(moves@) == keep_moves(wv.subrange(0, i as int)),
        decreases ws@.len() - i,
    {
        let t = trim_class_exec(&ws[i], CharClass::MoveJunk);
        let ts = string_from_chars(&t);
        let marker = ts == "1-0".to_string() || ts == "0-1".to_string() || ts == "1/2-1/2".to_string()
            || ts == "*".to_string() || t.len() == 0;
        let ghost old_moves = moves@;
        assert(wv.subrange(0, i + 1).drop_last() =~= wv.subrange(0, i as int));
        assert(wv.subrange(0, i + 1).last() == ws@[i as int]@);
        if !marker {
            moves.push(ts);
            assert(string_views(moves@) =~= string_views(old_moves).push(t@));
        }
        i = i + 1;
    }
    assert(wv.subrange(0, ws@.len() as int) =~= wv);
    moves
}

impl GameAnalyzer {
    /// The opening named in a PGN: the Chess.com opening URL's slug with
    /// hyphens read as spaces, or else the Opening header's value.
    pub fn extract_opening(pgn: &str) -> (r: Option<String>)
        ensures
            match r {
                Some(s) => spec_opening(pgn@) == Some(s@),
                None => spec_opening(pgn@) is None,
            },
    {
        let eco = "\\[ECOUrl\\s+\"https://www.chess.com/openings/([^\"]+)\"";
        let opening = "\\[Opening\\s+\"([^\"]+)\"\\]";
        if let Some(slug) = regex_first_group(eco, pgn) {
            return Some(opening_from_slug(slug.as_str()));
        }
        regex_first_group(opening, pgn)
    }

    /// The SAN moves of a PGN, in order, without headers, comments, move
    /// numbers and the result.
    pub fn parse_pgn_moves(pgn: &str) -> (r: Vec<String>)
        ensures
            string_views(r@) == spec_pgn_moves(pgn@),
    {
        let chars = chars_of(pgn);
        let text = string_from_chars(&move_text(&chars));
        let no_comments = match regex_replace_all("\\{[^}]*\\}", text.as_str(), " ") {
            Some(s) => s,
            None => return Vec::new(),
        };
        let no_numbers = match regex_replace_all("\\b\\d+\\.+", no_comments.as_str(), " ") {
            Some(s) => s,
            None => return Vec::new(),
        };
        moves_from_text(no_numbers.as_str())
    }
}

} // verus!
