//! Character classes and string helpers for the text formats the trainer
//! reads (PGN, UCI engine output).

use vstd::prelude::*;

verus! {

/// The Unicode White_Space property, which `char::is_whitespace` tests:
/// tab to carriage return, space, next line, no-break space, ogham space
/// mark, the spaces from en quad to hair space, line and paragraph
/// separators, narrow no-break space, medium mathematical space and
/// ideographic space.
pub open spec fn unicode_whitespace(c: char) -> bool {
    let u = c as u32;
    ||| 0x09 <= u <= 0x0D
    ||| u == 0x20
    ||| u == 0x85
    ||| u == 0xA0
    ||| u == 0x1680
    ||| 0x2000 <= u <= 0x200A
    ||| u == 0x2028
    ||| u == 0x2029
    ||| u == 0x202F
    ||| u == 0x205F
    ||| u == 0x3000
}

/// `char::is_alphanumeric` (Unicode Alphabetic or Numeric) of a character.
pub uninterp spec fn unicode_alphanumeric(c: char) -> bool;

/// ASCII letters and digits.
pub open spec fn ascii_alphanumeric(c: char) -> bool {
    ('0' <= c && c <= '9') || ('a' <= c && c <= 'z') || ('A' <= c && c <= 'Z')
}

/// Calls `char::is_whitespace`.  Claims the result is the character's
/// White_Space property, listed in `unicode_whitespace`.
#[verifier::external_body]
pub(crate) fn is_whitespace(c: char) -> (r: bool)
    ensures
        r == unicode_whitespace(c),
{
    c.is_whitespace()
}

/// Calls `char::is_alphanumeric`.  Claims the result is
/// `unicode_alphanumeric(c)`, which on ASCII characters is exactly the
/// letters and digits.
#[verifier::external_body]
pub(crate) fn is_alphanumeric(c: char) -> (r: bool)
    ensures
        r == unicode_alphanumeric(c),
        (c as u32) < 128 ==> (r <==> ascii_alphanumeric(c)),
{
    c.is_alphanumeric()
}

/// Calls `Iterator::collect` on the characters: the string made of them.
#[verifier::external_body]
pub(crate) fn string_from_chars(v: &[char]) -> (r: String)
    ensures
        r@ == v@,
{
    v.iter().collect()
}

/// The characters of a string.
pub fn chars_of(s: &str) -> (r: Vec<char>)
    ensures
        r@ == s@,
{
    let mut out: Vec<char> = Vec::new();
    for c in it: s.chars()
        invariant
            out@ == it.seq().take(it.index() as int),
    {
        out.push(c);
    }
    out
}

} // verus!

verus! {

/// A class of characters to skip or split on.
#[derive(PartialEq, Eq, Structural, Clone, Copy, Debug)]
pub enum CharClass {
    /// Unicode whitespace.
    Whitespace,
    /// Anything but letters, digits and the move marks `+ # = -`.
    MoveJunk,
}

pub open spec fn in_class(class: CharClass, c: char) -> bool {
    match class {
        CharClass::Whitespace => unicode_whitespace(c),
        CharClass::MoveJunk => !unicode_alphanumeric(c) && c != '+' && c != '#' && c != '=' && c != '-',
    }
}

pub fn char_in_class(class: CharClass, c: char) -> (r: bool)
    ensures
        r == in_class(class, c),
{
    match class {
        CharClass::Whitespace => is_whitespace(c),
        CharClass::MoveJunk => !is_alphanumeric(c) && c != '+' && c != '#' && c != '=' && c != '-',
    }
}

/// The first index from `i` on (below `hi`) whose character is not in the
/// class, or `hi`.
pub open spec fn skip_class(s: Seq<char>, i: int, hi: int, class: CharClass) -> int
    decreases hi - i,
{
    if i >= hi || !in_class(class, s[i]) {
        i
    } else {
        skip_class(s, i + 1, hi, class)
    }
}

/// The first index from `i` on (below `hi`) whose character is in the
/// class, or `hi`.
pub open spec fn find_class(s: Seq<char>, i: int, hi: int, class: CharClass) -> int
    decreases hi - i,
{
    if i >= hi || in_class(class, s[i]) {
        i
    } else {
        find_class(s, i + 1, hi, class)
    }
}

/// The end of `s[lo..hi]` once the trailing characters of the class are
/// dropped.
pub open spec fn skip_class_back(s: Seq<char>, lo: int, hi: int, class: CharClass) -> int
    decreases hi - lo,
{
    if hi <= lo || !in_class(class, s[hi - 1]) {
        hi
    } else {
        skip_class_back(s, lo, hi - 1, class)
    }
}

/// `s` without its leading and trailing characters of the class.
pub open spec fn trim_class(s: Seq<char>, class: CharClass) -> Seq<char> {
    let a = skip_class(s, 0, s.len() as int, class);
    s.subrange(a, skip_class_back(s, a, s.len() as int, class))
}

pub proof fn lemma_skip_class_bounds(s: Seq<char>, i: int, hi: int, class: CharClass)
    requires
        i <= hi,
    ensures
        i <= skip_class(s, i, hi, class) <= hi,
    decreases hi - i,
{
    if i < hi && in_class(class, s[i]) {
        lemma_skip_class_bounds(s, i + 1, hi, class);
    }
}

pub proof fn lemma_find_class_bounds(s: Seq<char>, i: int, hi: int, class: CharClass)
    requires
        i <= hi,
    ensures
        i <= find_class(s, i, hi, class) <= hi,
    decreases hi - i,
{
    if i < hi && !in_class(class, s[i]) {
        lemma_find_class_bounds(s, i + 1, hi, class);
    }
}

pub proof fn lemma_skip_class_back_bounds(s: Seq<char>, lo: int, hi: int, class: CharClass)
    requires
        lo <= hi,
    ensures
        lo <= skip_class_back(s, lo, hi, class) <= hi,
    decreases hi - lo,
{
    if lo < hi && in_class(class, s[hi - 1]) {
        lemma_skip_class_back_bounds(s, lo, hi - 1, class);
    }
}

/// Skips the characters of the class from `i` on.
pub fn skip_class_exec(v: &Vec<char>, i: usize, hi: usize, class: CharClass) -> (r: usize)
    requires
        i <= hi <= v@.len(),
    ensures
        r == skip_class(v@, i as int, hi as int, class),
        i <= r <= hi,
{
    let mut j = i;
    while j < hi && char_in_class(class, v[j])
        invariant
            i <= j <= hi <= v@.len(),
            skip_class(v@, i as int, hi as int, class) == skip_class(v@, j as int, hi as int, class),
        decreases hi - j,
    {
        j = j + 1;
    }
    j
}

/// Finds the first character of the class from `i` on.
pub fn find_class_exec(v: &Vec<char>, i: usize, hi: usize, class: CharClass) -> (r: usize)
    requires
        i <= hi <= v@.len(),
    ensures
        r == find_class(v@, i as int, hi as int, class),
        i <= r <= hi,
{
    let mut j = i;
    while j < hi && !char_in_class(class, v[j])
        invariant
            i <= j <= hi <= v@.len(),
            find_class(v@, i as int, hi as int, class) == find_class(v@, j as int, hi as int, class),
        decreases hi - j,
    {
        j = j + 1;
    }
    j
}

/// Drops the trailing characters of the class from `v[lo..hi]`.
pub fn skip_class_back_exec(v: &Vec<char>, lo: usize, hi: usize, class: CharClass) -> (r: usize)
    requires
        lo <= hi <= v@.len(),
    ensures
        r == skip_class_back(v@, lo as int, hi as int, class),
        lo <= r <= hi,
{
    let mut j = hi;
    while j > lo && char_in_class(class, v[j - 1])
        invariant
            lo <= j <= hi <= v@.len(),
            skip_class_back(v@, lo as int, hi as int, class) == skip_class_back(v@, lo as int, j as int, class),
        decreases j - lo,
    {
        j = j - 1;
    }
    j
}

/// The characters of `v[lo..hi]`.
pub fn copy_range(v: &Vec<char>, lo: usize, hi: usize) -> (r: Vec<char>)
    requires
        lo <= hi <= v@.len(),
    ensures
        r@ == v@.subrange(lo as int, hi as int),
{
    let mut out: Vec<char> = Vec::new();
    let mut i = lo;
    while i < hi
        invariant
            lo <= i <= hi <= v@.len(),
            out@ == v@.subrange(lo as int, i as int),
        decreases hi - i,
    {
        out.push(v[i]);
        assert(v@.subrange(lo as int, i + 1) == v@.subrange(lo as int, i as int).push(v@[i as int]));
        i = i + 1;
    }
    out
}

/// `s` without leading and trailing characters of the class.
pub fn trim_class_exec(s: &Vec<char>, class: CharClass) -> (r: Vec<char>)
    ensures
        r@ == trim_class(s@, class),
{
    let a = skip_class_exec(s, 0, s.len(), class);
    let b = skip_class_back_exec(s, a, s.len(), class);
    copy_range(s, a, b)
}

/// The maximal runs of characters outside the class in `s[i..hi]`, in order
/// (for the whitespace class: the whitespace-separated words).
pub open spec fn runs_from(s: Seq<char>, i: int, hi: int, class: CharClass) -> Seq<Seq<char>>
    decreases hi - i,
{
    if i >= hi {
        Seq::empty()
    } else if in_class(class, s[i]) {
        runs_from(s, i + 1, hi, class)
    } else {
        let e = find_class(s, i + 1, hi, class);
        proof {
            lemma_find_class_bounds(s, i + 1, hi, class);
        }
        seq![s.subrange(i, e)] + runs_from(s, e, hi, class)
    }
}

/// The whitespace-separated words of `s`.
pub open spec fn words(s: Seq<char>) -> Seq<Seq<char>> {
    runs_from(s, 0, s.len() as int, CharClass::Whitespace)
}

/// The words of a string, in order.
pub fn split_words(v: &Vec<char>) -> (r: Vec<Vec<char>>)
    ensures
        r@.map_values(|w: Vec<char>| w@) == words(v@),
{
    let hi = v.len();
    let mut out: Vec<Vec<char>> = Vec::new();
    let mut i: usize = 0;
    while i < hi
        invariant
            hi == v@.len(),
            i <= hi,
            out@.map_values(|w: Vec<char>| w@) + runs_from(v@, i as int, hi as int, CharClass::Whitespace) == words(v@),
        decreases hi - i,
    {
        if char_in_class(CharClass::Whitespace, v[i]) {
            i = i + 1;
        } else {
            let e = find_class_exec(v, i + 1, hi, CharClass::Whitespace);
            let w = copy_range(v, i, e);
            let ghost old_out = out@;
            out.push(w);
            assert(out@.map_values(|w: Vec<char>| w@) == old_out.map_values(|w: Vec<char>| w@).push(w@));
            assert(runs_from(v@, i as int, hi as int, CharClass::Whitespace) == seq![v@.subrange(i as int, e as int)] + runs_from(v@, e as int, hi as int, CharClass::Whitespace));
            assert(old_out.map_values(|w: Vec<char>| w@).push(w@) + runs_from(v@, e as int, hi as int, CharClass::Whitespace)
                =~= old_out.map_values(|w: Vec<char>| w@) + (seq![w@] + runs_from(v@, e as int, hi as int, CharClass::Whitespace)));
            i = e;
        }
    }
    assert(runs_from(v@, hi as int, hi as int, CharClass::Whitespace) == Seq::<Seq<char>>::empty());
    assert(out@.map_values(|w: Vec<char>| w@) + Seq::<Seq<char>>::empty() =~= out@.map_values(|w: Vec<char>| w@));
    out
}

} // verus!

verus! {

/// `str::to_lowercase` of a string.
pub uninterp spec fn unicode_lowercase(s: Seq<char>) -> Seq<char>;

/// Calls `str::to_lowercase`.  Claims the result is `unicode_lowercase(s)`.
#[verifier::external_body]
pub(crate) fn to_lowercase(s: &str) -> (r: String)
    ensures
        r@ == unicode_lowercase(s@),
{
    s.to_lowercase()
}

/// Whether `s` contains `p` as a contiguous part.
pub open spec fn has_part(s: Seq<char>, p: Seq<char>) -> bool {
    exists|i: int| 0 <= i && i + p.len() <= s.len() && #[trigger] s.subrange(i, i + p.len()) == p
}

/// Whether the characters contain `p` as a contiguous part.
pub fn chars_contain(v: &Vec<char>, p: &str) -> (r: bool)
    ensures
        r == has_part(v@, p@),
{
    let pc = chars_of(p);
    if pc.len() > v.len() {
        return false;
    }
    let mut i: usize = 0;
    while pc.len() <= v.len() - i
        invariant
            pc@ == p@,
            pc@.len() <= v@.len(),
            i <= v@.len(),
            forall|k: int| 0 <= k < i ==> #[trigger] v@.subrange(k, k + pc@.len()) != pc@,
        decreases v@.len() - i,
    {
        let mut j: usize = 0;
        let mut same = true;
        let vlen = v.len();
        while j < pc.len()
            invariant
                vlen == v@.len(),
                pc@ == p@,
                i + pc@.len() <= v@.len(),
                i <= v@.len(),
                j <= pc@.len(),
                same == (forall|q: int| 0 <= q < j ==> v@[i + q] == pc@[q]),
            decreases pc@.len() - j,
        {
            assert(i + j < v@.len());
            let k: usize = i + j;
            if v[k] != pc[j] {
                same = false;
            }
            j = j + 1;
        }
        if same {
            assert(v@.subrange(i as int, i + pc@.len()) =~= pc@);
            return true;
        }
        proof {
            let q = choose|q: int| 0 <= q < pc@.len() && v@[i + q] != pc@[q];
            assert(v@.subrange(i as int, i + pc@.len())[q] != pc@[q]);
        }
        i = i + 1;
    }
    proof {
        assert forall|k: int| 0 <= k && k + pc@.len() <= v@.len() implies #[trigger] v@.subrange(k, k + pc@.len()) != pc@ by {
            assert(k < i);
        }
    }
    false
}

/// Whether one string occurs in another.
pub fn contains_str(s: &str, p: &str) -> (r: bool)
    ensures
        r == has_part(s@, p@),
{
    let v = chars_of(s);
    chars_contain(&v, p)
}

/// The strings of a list, each by its characters.
pub open spec fn string_views(v: Seq<String>) -> Seq<Seq<char>> {
    v.map_values(|s: String| s@)
}

/// Whether one of the strings equals `item`.
pub fn list_contains(list: &[String], item: &str) -> (r: bool)
    ensures
        r == string_views(list@).contains(item@),
{
    let wanted = item.to_string();
    let mut i: usize = 0;
    while i < list.len()
        invariant
            wanted@ == item@,
            i <= list@.len(),
            forall|j: int| 0 <= j < i ==> list@[j]@ != item@,
        decreases list@.len() - i,
    {
        if list[i] == wanted {
            assert(string_views(list@)[i as int] == item@);
            return true;
        }
        i = i + 1;
    }
    proof {
        if string_views(list@).contains(item@) {
            let j = choose|j: int| 0 <= j < string_views(list@).len() && string_views(list@)[j] == item@;
            assert(list@[j]@ == item@);
        }
    }
    false
}

/// `s` without leading and trailing whitespace.
pub fn trim_str(s: &str) -> (r: String)
    ensures
        r@ == trim_class(s@, CharClass::Whitespace),
{
    let v = chars_of(s);
    let t = trim_class_exec(&v, CharClass::Whitespace);
    string_from_chars(t.as_slice())
}

} // verus!


