use vstd::prelude::*;

verus! {

/// Whether square `sq` (0 = a1, 63 = h8) is a member of the 64-bit set `b`.
pub open spec fn bb_has(b: u64, sq: int) -> bool {
    0 <= sq < 64 && (b >> (sq as u64)) & 1u64 == 1u64
}

/// Tests membership of a square in a bit set.
pub fn bb_contains(b: u64, sq: u8) -> (r: bool)
    requires
        sq < 64,
    ensures
        r == bb_has(b, sq as int),
{
    (b >> (sq as u64)) & 1u64 == 1u64
}

pub proof fn lemma_bb_or_single(x: u64, i: u64, t: u64)
    requires
        i < 64,
        t < 64,
    ensures
        ((x | (1u64 << i)) >> t) & 1u64 == 1u64 <==> ((x >> t) & 1u64 == 1u64 || t == i),
{
    assert(((x | (1u64 << i)) >> t) & 1u64 == 1u64 <==> ((x >> t) & 1u64 == 1u64 || t == i))
        by (bit_vector)
        requires
            i < 64,
            t < 64,
    ;
}

pub proof fn lemma_bb_empty(t: u64)
    requires
        t < 64,
    ensures
        (0u64 >> t) & 1u64 != 1u64,
{
    assert((0u64 >> t) & 1u64 != 1u64) by (bit_vector);
}

pub proof fn lemma_bb_and(a: u64, b: u64, t: u64)
    requires
        t < 64,
    ensures
        ((a & b) >> t) & 1u64 == 1u64 <==> ((a >> t) & 1u64 == 1u64 && (b >> t) & 1u64 == 1u64),
{
    assert(((a & b) >> t) & 1u64 == 1u64 <==> ((a >> t) & 1u64 == 1u64 && (b >> t) & 1u64 == 1u64))
        by (bit_vector);
}

/// The bit set made of the squares below `n` for which `member` holds.
pub open spec fn bits_below(member: spec_fn(int) -> bool, n: int) -> u64
    decreases n,
{
    if n <= 0 {
        0u64
    } else {
        let rest = bits_below(member, n - 1);
        if member(n - 1) {
            rest | (1u64 << ((n - 1) as u64))
        } else {
            rest
        }
    }
}

/// `bits_below` holds exactly the squares below `n` for which `member` holds.
pub proof fn lemma_bits_below(member: spec_fn(int) -> bool, n: int)
    requires
        0 <= n <= 64,
    ensures
        forall|t: int| 0 <= t < 64 ==> (bb_has(#[trigger] bits_below(member, n), t) <==> (t < n && member(t))),
    decreases n,
{
    if n > 0 {
        lemma_bits_below(member, n - 1);
        let rest = bits_below(member, n - 1);
        assert forall|t: int| 0 <= t < 64 implies (bb_has(bits_below(member, n), t) <==> (t < n
            && member(t))) by {
            assert(bb_has(rest, t) <==> (t < n - 1 && member(t)));
            if member(n - 1) {
                lemma_bb_or_single(rest, (n - 1) as u64, t as u64);
            }
        }
    } else {
        assert forall|t: int| 0 <= t < 64 implies !bb_has(bits_below(member, n), t) by {
            lemma_bb_empty(t as u64);
        }
    }
}

/// Number of integers `t` in `0..n` for which `pred` holds.
pub open spec fn count_below(pred: spec_fn(int) -> bool, n: int) -> nat
    decreases n,
{
    if n <= 0 {
        0
    } else {
        count_below(pred, n - 1) + if pred(n - 1) { 1nat } else { 0nat }
    }
}

pub proof fn lemma_count_below_bound(pred: spec_fn(int) -> bool, n: int)
    requires
        n >= 0,
    ensures
        count_below(pred, n) <= n,
    decreases n,
{
    if n > 0 {
        lemma_count_below_bound(pred, n - 1);
    }
}


/// Some index below `n` satisfies the predicate exactly when the count is
/// positive.
pub proof fn lemma_count_one(pred: spec_fn(int) -> bool, n: int)
    ensures
        count_below(pred, n) >= 1 <==> exists|a: int| 0 <= a < n && #[trigger] pred(a),
    decreases n,
{
    if n > 0 {
        lemma_count_one(pred, n - 1);
        if count_below(pred, n) >= 1 && !pred(n - 1) {
            let a = choose|a: int| 0 <= a < n - 1 && #[trigger] pred(a);
            assert(0 <= a < n && pred(a));
        }
        if exists|a: int| 0 <= a < n && #[trigger] pred(a) {
            let a = choose|a: int| 0 <= a < n && #[trigger] pred(a);
            if a < n - 1 {
                assert(exists|b: int| 0 <= b < n - 1 && #[trigger] pred(b));
            }
        }
    }
}

/// Two distinct indices below `n` satisfy the predicate exactly when the
/// count is at least two.
pub proof fn lemma_count_two(pred: spec_fn(int) -> bool, n: int)
    ensures
        count_below(pred, n) >= 2 <==> exists|a: int, b: int| 0 <= a < b < n && #[trigger] pred(a) && #[trigger] pred(b),
    decreases n,
{
    if n > 0 {
        lemma_count_two(pred, n - 1);
        lemma_count_one(pred, n - 1);
        if count_below(pred, n) >= 2 {
            if pred(n - 1) {
                let a = choose|a: int| 0 <= a < n - 1 && #[trigger] pred(a);
                assert(0 <= a < n - 1 < n && pred(a) && pred(n - 1));
            } else {
                let (a, b) = choose|a: int, b: int| 0 <= a < b < n - 1 && #[trigger] pred(a) && #[trigger] pred(b);
                assert(0 <= a < b < n && pred(a) && pred(b));
            }
        }
        if exists|a: int, b: int| 0 <= a < b < n && #[trigger] pred(a) && #[trigger] pred(b) {
            let (a, b) = choose|a: int, b: int| 0 <= a < b < n && #[trigger] pred(a) && #[trigger] pred(b);
            if b == n - 1 {
                assert(exists|c: int| 0 <= c < n - 1 && #[trigger] pred(c));
            } else {
                assert(exists|c: int, d: int| 0 <= c < d < n - 1 && #[trigger] pred(c) && #[trigger] pred(d));
            }
        }
    }
}

} // verus!

verus! {

/// `c` is the only square that belongs to both `a` and `b`.
pub open spec fn sole_common(a: u64, b: u64, c: int) -> bool {
    &&& bb_has(a, c)
    &&& bb_has(b, c)
    &&& forall|d: int| #[trigger] bb_has(a, d) && bb_has(b, d) ==> d == c
}

/// The only square common to `a` and `b`, if exactly one is.
pub fn sole_common_square(a: u64, b: u64) -> (r: Option<u8>)
    ensures
        r matches Some(c) ==> c < 64 && sole_common(a, b, c as int),
        r is None ==> forall|c: int| !sole_common(a, b, c),
{
    let mut count: u8 = 0;
    let mut first: u8 = 0;
    let mut second: u8 = 0;
    let mut i: u8 = 0;
    while i < 64
        invariant
            i <= 64,
            count <= 2,
            count == 0 ==> forall|c: int| 0 <= c < i ==> !(#[trigger] bb_has(a, c) && bb_has(b, c)),
            count >= 1 ==> first < i && bb_has(a, first as int) && bb_has(b, first as int),
            count == 1 ==> forall|c: int| 0 <= c < i && #[trigger] bb_has(a, c) && bb_has(b, c) ==> c == first,
            count == 2 ==> second < i && bb_has(a, second as int) && bb_has(b, second as int) && second != first,
        decreases 64 - i,
    {
        if bb_contains(a, i) && bb_contains(b, i) {
            if count == 0 {
                first = i;
                count = 1;
            } else if count == 1 {
                second = i;
                count = 2;
            }
        }
        i = i + 1;
    }
    if count == 1 {
        Some(first)
    } else {
        None
    }
}

} // verus!

verus! {

/// Whether `a` and `b` have no square in common.
pub fn bb_disjoint(a: u64, b: u64) -> (r: bool)
    ensures
        r == (forall|c: int| !(#[trigger] bb_has(a, c) && bb_has(b, c))),
{
    let mut i: u8 = 0;
    while i < 64
        invariant
            i <= 64,
            forall|c: int| 0 <= c < i ==> !(#[trigger] bb_has(a, c) && bb_has(b, c)),
        decreases 64 - i,
    {
        if bb_contains(a, i) && bb_contains(b, i) {
            return false;
        }
        i = i + 1;
    }
    true
}

} // verus!
