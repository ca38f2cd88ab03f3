//! The integer part of a user's statistics: puzzle counts by severity, and
//! the per-motif tally over reviewed puzzles, most frequent motif first.

use vstd::prelude::*;
use crate::json::{from_json_text, json_string_list};
use crate::text::string_views;
use vstd::string::StringExecFns;

verus! {

/// One group of the severity query: a severity label and its puzzle count.
pub struct SeverityRow {
    pub severity: String,
    pub count: i64,
}

/// Puzzle counts by severity.
pub struct SeverityCounts {
    pub blunders: i64,
    pub mistakes: i64,
    pub inaccuracies: i64,
}

/// The count of the last group with the given label, 0 where there is none.
pub open spec fn last_count(rows: Seq<SeverityRow>, label: Seq<char>) -> i64
    decreases rows.len(),
{
    if rows.len() == 0 {
        0
    } else if rows.last().severity@ == label {
        rows.last().count
    } else {
        last_count(rows.drop_last(), label)
    }
}

/// Reads the severity groups: "blunder", "mistake" and "inaccuracy" take
/// their group's count; other labels are ignored.
pub fn severity_counts(rows: &Vec<SeverityRow>) -> (r: SeverityCounts)
    ensures
        r.blunders == last_count(rows@, "blunder"@),
        r.mistakes == last_count(rows@, "mistake"@),
        r.inaccuracies == last_count(rows@, "inaccuracy"@),
{
    let mut blunders: i64 = 0;
    let mut mistakes: i64 = 0;
    let mut inaccuracies: i64 = 0;
    let mut i: usize = 0;
    while i < rows.len()
        invariant
            i <= rows@.len(),
            blunders == last_count(rows@.take(i as int), "blunder"@),
            mistakes == last_count(rows@.take(i as int), "mistake"@),
            inaccuracies == last_count(rows@.take(i as int), "inaccuracy"@),
        decreases rows@.len() - i,
    {
        let row = &rows[i];
        proof {
            assert(rows@.take(i + 1).drop_last() =~= rows@.take(i as int));
            assert(rows@.take(i + 1).last() == rows@[i as int]);
            reveal_strlit("blunder");
            reveal_strlit("mistake");
            reveal_strlit("inaccuracy");
            assert("blunder"@[0] != "mistake"@[0]);
            assert("blunder"@.len() != "inaccuracy"@.len());
            assert("mistake"@.len() != "inaccuracy"@.len());
        }
        if row.severity == "blunder".to_string() {
            blunders = row.count;
        } else if row.severity == "mistake".to_string() {
            mistakes = row.count;
        } else if row.severity == "inaccuracy".to_string() {
            inaccuracies = row.count;
        }
        i = i + 1;
    }
    assert(rows@.take(rows@.len() as int) =~= rows@);
    SeverityCounts { blunders, mistakes, inaccuracies }
}

/// A reviewed puzzle's stored tag list with its solve record.
pub struct TagRow {
    pub tags_json: String,
    pub times_solved: i64,
    pub times_failed: i64,
}

/// One tag of one reviewed puzzle, with that puzzle's solve record.
pub struct TagHit {
    pub tag: String,
    pub times_solved: i64,
    pub times_failed: i64,
}

/// A tag's tally: the puzzles that carry it and their solves and failures.
pub struct TagTally {
    pub tag: String,
    pub count: i64,
    pub times_solved: i64,
    pub times_failed: i64,
}

pub open spec fn hit_view(h: TagHit) -> (Seq<char>, i64, i64) {
    (h.tag@, h.times_solved, h.times_failed)
}

pub open spec fn hit_views(hits: Seq<TagHit>) -> Seq<(Seq<char>, i64, i64)> {
    hits.map_values(|h: TagHit| hit_view(h))
}

/// The tags of a stored list; a text that holds no list of strings counts
/// as no tags.
pub open spec fn stored_tags(text: Seq<char>) -> Seq<Seq<char>> {
    match json_string_list(text) {
        Some(tags) => tags,
        None => Seq::empty(),
    }
}

/// Each tag of each row, in order, paired with its row's solve record.
pub open spec fn spec_hits(rows: Seq<TagRow>) -> Seq<(Seq<char>, i64, i64)>
    decreases rows.len(),
{
    if rows.len() == 0 {
        Seq::empty()
    } else {
        let last = rows.last();
        spec_hits(rows.drop_last()) + stored_tags(last.tags_json@).map_values(
            |t: Seq<char>| (t, last.times_solved, last.times_failed),
        )
    }
}

/// Lists every tag of every row with the row's solve record.
pub fn tag_hits(rows: &Vec<TagRow>) -> (r: Vec<TagHit>)
    ensures
        hit_views(r@) == spec_hits(rows@),
{
    let mut out: Vec<TagHit> = Vec::new();
    let mut i: usize = 0;
    while i < rows.len()
        invariant
            i <= rows@.len(),
            hit_views(out@) == spec_hits(rows@.take(i as int)),
        decreases rows@.len() - i,
    {
        let row = &rows[i];
        let ghost before = out@;
        proof {
            assert(rows@.take(i + 1).drop_last() =~= rows@.take(i as int));
            assert(rows@.take(i + 1).last() == rows@[i as int]);
        }
        match from_json_text(row.tags_json.as_str()) {
            Some(tags) => {
                let ghost tv = string_views(tags@);
                let mut j: usize = 0;
                while j < tags.len()
                    invariant
                        j <= tags@.len(),
                        tv == string_views(tags@),
                        hit_views(out@) == hit_views(before) + tv.take(j as int).map_values(
                            |t: Seq<char>| (t, row.times_solved, row.times_failed),
                        ),
                    decreases tags@.len() - j,
                {
                    let ghost mid = out@;
                    out.push(TagHit {
                        tag: tags[j].clone(),
                        times_solved: row.times_solved,
                        times_failed: row.times_failed,
                    });
                    assert(hit_views(out@) =~= hit_views(mid).push(hit_view(out@[mid.len() as int])));
                    assert(tv.take(j + 1).map_values(
                        |t: Seq<char>| (t, row.times_solved, row.times_failed),
                    ) =~= tv.take(j as int).map_values(
                        |t: Seq<char>| (t, row.times_solved, row.times_failed),
                    ).push((tv[j as int], row.times_solved, row.times_failed)));
                    j = j + 1;
                }
                assert(tv.take(tags@.len() as int) =~= tv);
            },
            None => {
                assert(stored_tags(row.tags_json@).map_values(
                    |t: Seq<char>| (t, row.times_solved, row.times_failed),
                ) =~= Seq::empty());
                assert(hit_views(out@) =~= hit_views(before) + Seq::empty());
            },
        }
        i = i + 1;
    }
    assert(rows@.take(rows@.len() as int) =~= rows@);
    out
}

/// A tag's totals over a list of hits: how often it occurs, and the solves
/// and failures summed over its occurrences.
pub open spec fn totals(hits: Seq<(Seq<char>, i64, i64)>, tag: Seq<char>) -> (int, int, int)
    decreases hits.len(),
{
    if hits.len() == 0 {
        (0, 0, 0)
    } else {
        let prev = totals(hits.drop_last(), tag);
        let h = hits.last();
        if h.0 == tag {
            (prev.0 + 1, prev.1 + h.1, prev.2 + h.2)
        } else {
            prev
        }
    }
}

pub open spec fn fits_i64(x: int) -> bool {
    i64::MIN <= x <= i64::MAX
}

/// Every running total, taken as the hits are added one by one, fits in
/// `i64`.
pub open spec fn running_totals_fit(hits: Seq<(Seq<char>, i64, i64)>) -> bool {
    forall|m: int|
        0 <= m < hits.len() ==> {
            let t = #[trigger] totals(hits.take(m + 1), hits[m].0);
            fits_i64(t.0) && fits_i64(t.1) && fits_i64(t.2)
        }
}

/// Two tallies of the same tag with the same figures.
pub open spec fn same_tally(x: TagTally, y: TagTally) -> bool {
    &&& x.tag@ == y.tag@
    &&& x.count == y.count
    &&& x.times_solved == y.times_solved
    &&& x.times_failed == y.times_failed
}

/// An entry holds its tag's totals, and the tag occurs.
pub open spec fn entry_matches(x: TagTally, hits: Seq<(Seq<char>, i64, i64)>) -> bool {
    let t = totals(hits, x.tag@);
    &&& x.count as int == t.0
    &&& x.times_solved as int == t.1
    &&& x.times_failed as int == t.2
    &&& t.0 >= 1
}

/// Some entry has this tag.
pub open spec fn tag_listed(tallies: Seq<TagTally>, tag: Seq<char>) -> bool {
    exists|k: int| 0 <= k < tallies.len() && #[trigger] tallies[k].tag@ == tag
}

/// What is owed of a tally list over some hits: one entry per distinct tag
/// that occurs, each with that tag's totals.
pub open spec fn tallies_match(tallies: Seq<TagTally>, hits: Seq<(Seq<char>, i64, i64)>) -> bool {
    &&& forall|a: int, b: int|
        0 <= a < b < tallies.len() ==> #[trigger] tallies[a].tag@ != #[trigger] tallies[b].tag@
    &&& forall|k: int| 0 <= k < tallies.len() ==> #[trigger] entry_matches(tallies[k], hits)
    &&& forall|j: int| 0 <= j < hits.len() ==> #[trigger] tag_listed(tallies, hits[j].0)
}

/// Most frequent first.
#[verifier::opaque]
pub open spec fn by_count_desc(tallies: Seq<TagTally>) -> bool {
    forall|a: int, b: int|
        0 <= a < b < tallies.len() ==> #[trigger] tallies[a].count >= #[trigger] tallies[b].count
}

proof fn lemma_totals_step(hits: Seq<(Seq<char>, i64, i64)>, i: int, tag: Seq<char>)
    requires
        0 <= i < hits.len(),
    ensures
        totals(hits.take(i + 1), tag) == (if hits[i].0 == tag {
            let p = totals(hits.take(i), tag);
            (p.0 + 1, p.1 + hits[i].1, p.2 + hits[i].2)
        } else {
            totals(hits.take(i), tag)
        }),
{
    assert(hits.take(i + 1).drop_last() =~= hits.take(i));
    assert(hits.take(i + 1).last() == hits[i]);
}

proof fn lemma_totals_nonneg_count(hits: Seq<(Seq<char>, i64, i64)>, tag: Seq<char>)
    ensures
        totals(hits, tag).0 >= 0,
    decreases hits.len(),
{
    if hits.len() > 0 {
        lemma_totals_nonneg_count(hits.drop_last(), tag);
    }
}

/// Finds the entry of a tag.
fn find_tally(tallies: &Vec<TagTally>, tag: &String) -> (r: Option<usize>)
    ensures
        match r {
            Some(k) => k < tallies@.len() && tallies@[k as int].tag@ == tag@,
            None => forall|k: int| 0 <= k < tallies@.len() ==> tallies@[k].tag@ != tag@,
        },
{
    let mut k: usize = 0;
    while k < tallies.len()
        invariant
            k <= tallies@.len(),
            forall|m: int| 0 <= m < k ==> tallies@[m].tag@ != tag@,
        decreases tallies@.len() - k,
    {
        if tallies[k].tag == *tag {
            return Some(k);
        }
        k = k + 1;
    }
    None
}

/// Sums the hits per tag, in the order the tags first occur.  `None` where a
/// running total would leave `i64`.
pub fn sum_hits(hits: &Vec<TagHit>) -> (r: Option<Vec<TagTally>>)
    ensures
        r is None <==> !running_totals_fit(hit_views(hits@)),
        r matches Some(t) ==> tallies_match(t@, hit_views(hits@)),
{
    let ghost hv = hit_views(hits@);
    let mut tallies: Vec<TagTally> = Vec::new();
    let mut i: usize = 0;
    while i < hits.len()
        invariant
            i <= hits@.len(),
            hv == hit_views(hits@),
            hv.len() == hits@.len(),
            tallies_match(tallies@, hv.take(i as int)),
            forall|m: int|
                0 <= m < i ==> {
                    let t = #[trigger] totals(hv.take(m + 1), hv[m].0);
                    fits_i64(t.0) && fits_i64(t.1) && fits_i64(t.2)
                },
        decreases hits@.len() - i,
    {
        let hit = &hits[i];
        assert(hv[i as int] == hit_view(*hit));
        let ghost prev = tallies@;
        proof {
            assert forall|tag: Seq<char>| #[trigger] totals(hv.take(i + 1), tag) == (if hv[i as int].0 == tag {
                let p = totals(hv.take(i as int), tag);
                (p.0 + 1, p.1 + hv[i as int].1, p.2 + hv[i as int].2)
            } else {
                totals(hv.take(i as int), tag)
            }) by {
                lemma_totals_step(hv, i as int, tag);
            }
            assert forall|j: int| 0 <= j < i implies #[trigger] hv.take(i + 1)[j] == hv.take(i as int)[j] by {}
        }
        match find_tally(&tallies, &hit.tag) {
            Some(k) => {
                let old_entry = &tallies[k];
                assert(entry_matches(prev[k as int], hv.take(i as int)));
                let ghost p = totals(hv.take(i as int), hit.tag@);
                let count = old_entry.count.checked_add(1);
                let solved = old_entry.times_solved.checked_add(hit.times_solved);
                let failed = old_entry.times_failed.checked_add(hit.times_failed);
                if count.is_none() || solved.is_none() || failed.is_none() {
                    proof {
                        assert(!running_totals_fit(hv)) by {
                            let t = totals(hv.take(i + 1), hv[i as int].0);
                            assert(!(fits_i64(t.0) && fits_i64(t.1) && fits_i64(t.2)));
                        }
                    }
                    return None;
                }
                let entry = TagTally {
                    tag: old_entry.tag.clone(),
                    count: count.unwrap(),
                    times_solved: solved.unwrap(),
                    times_failed: failed.unwrap(),
                };
                tallies.set(k, entry);
                proof {
                    assert forall|q: int| 0 <= q < tallies@.len() implies #[trigger] entry_matches(tallies@[q], hv.take(i + 1)) by {
                        assert(entry_matches(prev[q], hv.take(i as int)));
                        if q != k {
                            assert(prev[q].tag@ != prev[k as int].tag@);
                        }
                    }
                    assert forall|j: int| 0 <= j < i + 1 implies #[trigger] tag_listed(tallies@, hv.take(i + 1)[j].0) by {
                        if j < i {
                            assert(tag_listed(prev, hv.take(i as int)[j].0));
                            let q = choose|q: int| 0 <= q < prev.len() && #[trigger] prev[q].tag@ == hv.take(i as int)[j].0;
                            assert(tallies@[q].tag@ == hv.take(i + 1)[j].0);
                        } else {
                            assert(tallies@[k as int].tag@ == hv.take(i + 1)[j].0);
                        }
                    }
                }
            },
            None => {
                proof {
                    lemma_totals_nonneg_count(hv.take(i as int), hit.tag@);
                    if totals(hv.take(i as int), hit.tag@).0 > 0 {
                        lemma_occurs(hv.take(i as int), hit.tag@);
                        let j = choose|j: int| 0 <= j < i && hv.take(i as int)[j].0 == hit.tag@;
                        assert(tag_listed(prev, hv.take(i as int)[j].0));
                        let q = choose|q: int| 0 <= q < prev.len() && #[trigger] prev[q].tag@ == hv.take(i as int)[j].0;
                        assert(false);
                    }
                    lemma_totals_zero(hv.take(i as int), hit.tag@);
                }
                let entry = TagTally {
                    tag: hit.tag.clone(),
                    count: 1,
                    times_solved: hit.times_solved,
                    times_failed: hit.times_failed,
                };
                tallies.push(entry);
                proof {
                    assert forall|q: int| 0 <= q < tallies@.len() implies #[trigger] entry_matches(tallies@[q], hv.take(i + 1)) by {
                        if q < prev.len() {
                            assert(entry_matches(prev[q], hv.take(i as int)));
                            assert(tag_listed(prev, prev[q].tag@));
                        }
                    }
                    assert forall|j: int| 0 <= j < i + 1 implies #[trigger] tag_listed(tallies@, hv.take(i + 1)[j].0) by {
                        if j < i {
                            assert(tag_listed(prev, hv.take(i as int)[j].0));
                            let q = choose|q: int| 0 <= q < prev.len() && #[trigger] prev[q].tag@ == hv.take(i as int)[j].0;
                            assert(tallies@[q].tag@ == hv.take(i + 1)[j].0);
                        } else {
                            assert(tallies@[prev.len() as int].tag@ == hv.take(i + 1)[j].0);
                        }
                    }
                }
            },
        }
        i = i + 1;
    }
    assert(hv.take(hv.len() as int) =~= hv);
    Some(tallies)
}

/// A tag whose count over some hits is positive occurs among them.
proof fn lemma_occurs(hits: Seq<(Seq<char>, i64, i64)>, tag: Seq<char>)
    requires
        totals(hits, tag).0 > 0,
    ensures
        exists|j: int| 0 <= j < hits.len() && hits[j].0 == tag,
    decreases hits.len(),
{
    if hits.last().0 == tag {
        assert(hits[hits.len() - 1].0 == tag);
    } else {
        lemma_occurs(hits.drop_last(), tag);
        let j = choose|j: int| 0 <= j < hits.drop_last().len() && hits.drop_last()[j].0 == tag;
        assert(hits[j].0 == tag);
    }
}

/// A tag with count 0 has no solves or failures summed either.
proof fn lemma_totals_zero(hits: Seq<(Seq<char>, i64, i64)>, tag: Seq<char>)
    requires
        totals(hits, tag).0 == 0,
    ensures
        totals(hits, tag) == (0int, 0int, 0int),
    decreases hits.len(),
{
    if hits.len() > 0 {
        lemma_totals_nonneg_count(hits.drop_last(), tag);
        lemma_totals_zero(hits.drop_last(), tag);
    }
}

/// Tags that differ from position to position.
#[verifier::opaque]
pub open spec fn tally_tags_distinct(t: Seq<TagTally>) -> bool {
    forall|a: int, b: int| 0 <= a < b < t.len() ==> #[trigger] t[a].tag@ != #[trigger] t[b].tag@
}

/// `x` is one of the tallies of `b`.
pub open spec fn has_same(b: Seq<TagTally>, x: TagTally) -> bool {
    exists|j: int| 0 <= j < b.len() && #[trigger] same_tally(x, b[j])
}

/// Every tally of `a` is one of `b`.
pub open spec fn drawn_from(a: Seq<TagTally>, b: Seq<TagTally>) -> bool {
    forall|k: int| 0 <= k < a.len() ==> #[trigger] has_same(b, a[k])
}

proof fn lemma_insert_ordered(before: Seq<TagTally>, p: int, x: TagTally)
    requires
        0 <= p <= before.len(),
        by_count_desc(before),
        forall|k: int| 0 <= k < p ==> #[trigger] before[k].count >= x.count,
        p < before.len() ==> before[p].count < x.count,
    ensures
        by_count_desc(before.insert(p, x)),
{
    reveal(by_count_desc);
    let out = before.insert(p, x);
    before.insert_ensures(p, x);
    assert forall|a: int, b: int| 0 <= a < b < out.len() implies #[trigger] out[a].count >= #[trigger] out[b].count by {
        if b < p {
            assert(out[a] == before[a] && out[b] == before[b]);
        } else if b == p {
            assert(out[a] == before[a]);
        } else if a < p {
            assert(out[a] == before[a]);
            assert(out[b] == before[b - 1]);
        } else if a == p {
            assert(out[b] == before[b - 1]);
            assert(before[p].count >= before[b - 1].count);
        } else {
            assert(out[a] == before[a - 1]);
            assert(out[b] == before[b - 1]);
        }
    }
}

proof fn lemma_insert_drawn(before: Seq<TagTally>, p: int, orig: Seq<TagTally>, i: int)
    requires
        0 <= p <= before.len(),
        0 <= i < orig.len(),
        drawn_from(before, orig.take(i)),
        drawn_from(orig.take(i), before),
    ensures
        drawn_from(before.insert(p, orig[i]), orig.take(i + 1)),
        drawn_from(orig.take(i + 1), before.insert(p, orig[i])),
{
    let x = orig[i];
    let out = before.insert(p, x);
    let pre = orig.take(i);
    let post = orig.take(i + 1);
    before.insert_ensures(p, x);
    assert forall|k: int| 0 <= k < out.len() implies #[trigger] has_same(post, out[k]) by {
        if k == p {
            assert(same_tally(out[k], post[i]));
        } else {
            let b = if k < p { k } else { k - 1 };
            assert(out[k] == before[b]);
            assert(has_same(pre, before[b]));
            let j = choose|j: int| 0 <= j < pre.len() && #[trigger] same_tally(before[b], pre[j]);
            assert(post[j] == pre[j]);
            assert(same_tally(out[k], post[j]));
        }
    }
    assert forall|j: int| 0 <= j < post.len() implies #[trigger] has_same(out, post[j]) by {
        if j == i {
            assert(same_tally(post[j], out[p]));
        } else {
            assert(post[j] == pre[j]);
            assert(has_same(before, pre[j]));
            let k = choose|k: int| 0 <= k < before.len() && #[trigger] same_tally(pre[j], before[k]);
            if k < p {
                assert(same_tally(post[j], out[k]));
            } else {
                assert(same_tally(post[j], out[k + 1]));
            }
        }
    }
}

proof fn lemma_insert_distinct(before: Seq<TagTally>, p: int, orig: Seq<TagTally>, i: int)
    requires
        0 <= p <= before.len(),
        0 <= i < orig.len(),
        tally_tags_distinct(orig),
        tally_tags_distinct(before),
        drawn_from(before, orig.take(i)),
    ensures
        tally_tags_distinct(before.insert(p, orig[i])),
{
        reveal(tally_tags_distinct);
    let x = orig[i];
    let out = before.insert(p, x);
    before.insert_ensures(p, x);
    assert forall|k: int| 0 <= k < before.len() implies #[trigger] before[k].tag@ != x.tag@ by {
        assert(has_same(orig.take(i), before[k]));
        let j = choose|j: int| 0 <= j < orig.take(i).len() && #[trigger] same_tally(before[k], orig.take(i)[j]);
        assert(orig.take(i)[j] == orig[j]);
        assert(orig[j].tag@ != orig[i].tag@);
    }
    assert forall|a: int, b: int| 0 <= a < b < out.len() implies #[trigger] out[a].tag@ != #[trigger] out[b].tag@ by {
        if b < p {
            assert(out[a] == before[a] && out[b] == before[b]);
        } else if b == p {
            assert(out[a] == before[a]);
        } else if a < p {
            assert(out[a] == before[a]);
            assert(out[b] == before[b - 1]);
        } else if a == p {
            assert(out[b] == before[b - 1]);
        } else {
            assert(out[a] == before[a - 1]);
            assert(out[b] == before[b - 1]);
        }
    }
}

/// Orders tallies by count, most frequent first; tallies of equal count keep
/// their order.
pub fn rank_tallies(tallies: Vec<TagTally>) -> (r: Vec<TagTally>)
    requires
        tally_tags_distinct(tallies@),
    ensures
        r@.len() == tallies@.len(),
        drawn_from(r@, tallies@),
        drawn_from(tallies@, r@),
        tally_tags_distinct(r@),
        by_count_desc(r@),
{
    let ghost orig = tallies@;
    let n = tallies.len();
    let mut input = tallies;
    let mut out: Vec<TagTally> = Vec::new();
    let mut i: usize = 0;
    proof {
                reveal(tally_tags_distinct);
        reveal(by_count_desc);
        assert(orig.take(0) =~= Seq::<TagTally>::empty());
    }
    while i < n
        invariant
            n == orig.len(),
            i <= n,
            input@ == orig.subrange(i as int, n as int),
            out@.len() == i,
            tally_tags_distinct(orig),
            drawn_from(out@, orig.take(i as int)),
            drawn_from(orig.take(i as int), out@),
            tally_tags_distinct(out@),
            by_count_desc(out@),
        decreases n - i,
    {
        assert(input@[0] == orig[i as int]);
        let x = input.remove(0);
        assert(input@ =~= orig.subrange(i + 1, n as int));
        let mut p: usize = 0;
        while p < out.len() && out[p].count >= x.count
            invariant
                p <= out@.len(),
                forall|k: int| 0 <= k < p ==> #[trigger] out@[k].count >= x.count,
            decreases out@.len() - p,
        {
            p = p + 1;
        }
        let ghost before = out@;
        proof {
            lemma_insert_ordered(before, p as int, x);
            lemma_insert_drawn(before, p as int, orig, i as int);
            lemma_insert_distinct(before, p as int, orig, i as int);
        }
        out.insert(p, x);
        i = i + 1;
    }
    assert(orig.take(n as int) =~= orig);
    out
}

proof fn lemma_ranked_match(tallies: Seq<TagTally>, ranked: Seq<TagTally>, hv: Seq<(Seq<char>, i64, i64)>)
    requires
        tallies_match(tallies, hv),
        drawn_from(ranked, tallies),
        drawn_from(tallies, ranked),
        tally_tags_distinct(ranked),
    ensures
        tallies_match(ranked, hv),
{
    reveal(tally_tags_distinct);
    assert forall|k: int| 0 <= k < ranked.len() implies #[trigger] entry_matches(ranked[k], hv) by {
        assert(has_same(tallies, ranked[k]));
        let j = choose|j: int| 0 <= j < tallies.len() && #[trigger] same_tally(ranked[k], tallies[j]);
        assert(entry_matches(tallies[j], hv));
    }
    assert forall|j: int| 0 <= j < hv.len() implies #[trigger] tag_listed(ranked, hv[j].0) by {
        assert(tag_listed(tallies, hv[j].0));
        let q = choose|q: int| 0 <= q < tallies.len() && #[trigger] tallies[q].tag@ == hv[j].0;
        assert(has_same(ranked, tallies[q]));
        let k = choose|k: int| 0 <= k < ranked.len() && #[trigger] same_tally(tallies[q], ranked[k]);
        assert(ranked[k].tag@ == hv[j].0);
    }
}

/// The per-tag statistics of a user's reviewed puzzles: each tag that
/// occurs in a stored tag list, with the number of puzzles that carry it and
/// their solves and failures, most frequent first.  A stored text that holds
/// no list counts as no tags.  `None` where a running total would leave
/// `i64`.
pub fn tag_breakdown(rows: &Vec<TagRow>) -> (r: Option<Vec<TagTally>>)
    ensures
        r is None <==> !running_totals_fit(spec_hits(rows@)),
        r matches Some(t) ==> tallies_match(t@, spec_hits(rows@)) && by_count_desc(t@),
{
    let hits = tag_hits(rows);
    match sum_hits(&hits) {
        None => None,
        Some(tallies) => {
            let ghost t0 = tallies@;
            proof {
                reveal(tally_tags_distinct);
            }
            let ranked = rank_tallies(tallies);
            proof {
                lemma_ranked_match(t0, ranked@, spec_hits(rows@));
            }
            Some(ranked)
        },
    }
}

/// The number of reviews: solves plus failures.
pub fn total_reviews(total_solved: i64, total_failed: i64) -> (r: i64)
    requires
        fits_i64(total_solved + total_failed),
    ensures
        r == total_solved + total_failed,
{
    total_solved + total_failed
}

} // verus!
