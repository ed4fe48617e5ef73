//! Ranking for the report: each query's match list is sorted ascending by
//! score, with a stable sort, so that two library entries at the same score
//! keep the order in which they were appended (library order).

use vstd::prelude::*;

verus! {

/// Where stable insertion puts `m` in `s`: behind every entry whose score is
/// at most `m`'s, in front of every entry whose score is strictly greater.
pub open spec fn insert_sorted(m: (usize, u64), s: Seq<(usize, u64)>) -> Seq<(usize, u64)>
    decreases s.len(),
{
    if s.len() == 0 {
        seq![m]
    } else if m.1 < s.last().1 {
        insert_sorted(m, s.drop_last()).push(s.last())
    } else {
        s.push(m)
    }
}

/// The stable sort of `s`, ascending by score: each entry in turn is inserted
/// behind the earlier entries of equal score.
pub open spec fn sort_by_score(s: Seq<(usize, u64)>) -> Seq<(usize, u64)>
    decreases s.len(),
{
    if s.len() == 0 {
        Seq::empty()
    } else {
        insert_sorted(s.last(), sort_by_score(s.drop_last()))
    }
}

pub open spec fn sorted_by_score(s: Seq<(usize, u64)>) -> bool {
    forall|i: int, j: int| 0 <= i < j < s.len() ==> (#[trigger] s[i]).1 <= (#[trigger] s[j]).1
}

/// Entries with equal scores carry strictly increasing first components.
pub open spec fn ties_in_insertion_order(s: Seq<(usize, u64)>) -> bool {
    forall|i: int, j: int|
        0 <= i < j < s.len() && (#[trigger] s[i]).1 == (#[trigger] s[j]).1 ==> s[i].0 < s[j].0
}

proof fn lemma_insert_sorted_at(m: (usize, u64), s: Seq<(usize, u64)>, p: int)
    requires
        0 <= p <= s.len(),
        p == 0 || s[p - 1].1 <= m.1,
        forall|t: int| p <= t < s.len() ==> m.1 < (#[trigger] s[t]).1,
    ensures
        insert_sorted(m, s) == s.subrange(0, p) + seq![m] + s.subrange(p, s.len() as int),
    decreases s.len(),
{
    if s.len() == 0 {
        assert(insert_sorted(m, s) =~= s.subrange(0, p) + seq![m] + s.subrange(p, 0));
    } else if m.1 < s.last().1 {
        assert(p < s.len()) by {
            if p == s.len() {
                assert(s[p - 1] == s.last());
            }
        }
        lemma_insert_sorted_at(m, s.drop_last(), p);
        assert(insert_sorted(m, s) =~= s.subrange(0, p) + seq![m] + s.subrange(
            p,
            s.len() as int,
        ));
    } else {
        assert(p == s.len()) by {
            if p < s.len() {
                assert(m.1 < s[s.len() - 1].1);
            }
        }
        assert(insert_sorted(m, s) =~= s.subrange(0, p) + seq![m] + s.subrange(
            p,
            s.len() as int,
        ));
    }
}

/// Every entry of `insert_sorted(m, s)` is `m` or an entry of `s`, and exactly
/// one entry was added.
proof fn lemma_insert_sorted_elems(m: (usize, u64), s: Seq<(usize, u64)>)
    ensures
        insert_sorted(m, s).len() == s.len() + 1,
        forall|t: int|
            0 <= t < insert_sorted(m, s).len() ==> (#[trigger] insert_sorted(m, s)[t] == m
                || s.contains(insert_sorted(m, s)[t])),
    decreases s.len(),
{
    if s.len() == 0 {
    } else if m.1 < s.last().1 {
        lemma_insert_sorted_elems(m, s.drop_last());
        let r = insert_sorted(m, s);
        let rp = insert_sorted(m, s.drop_last());
        assert forall|t: int| 0 <= t < r.len() implies (r[t] == m || s.contains(r[t])) by {
            if t < rp.len() {
                assert(r[t] == rp[t]);
                if rp[t] != m {
                    let u = choose|u: int|
                        0 <= u < s.drop_last().len() && s.drop_last()[u] == rp[t];
                    assert(s[u] == rp[t]);
                }
            } else {
                assert(r[t] == s.last());
                assert(s[s.len() - 1] == s.last());
            }
        }
    } else {
        let r = insert_sorted(m, s);
        assert forall|t: int| 0 <= t < r.len() implies (r[t] == m || s.contains(r[t])) by {
            if t < s.len() {
                assert(s[t] == r[t]);
            }
        }
    }
}

proof fn lemma_insert_sorted_sorted(m: (usize, u64), s: Seq<(usize, u64)>)
    requires
        sorted_by_score(s),
    ensures
        sorted_by_score(insert_sorted(m, s)),
    decreases s.len(),
{
    if s.len() == 0 {
    } else if m.1 < s.last().1 {
        lemma_insert_sorted_sorted(m, s.drop_last());
        lemma_insert_sorted_elems(m, s.drop_last());
        let r = insert_sorted(m, s);
        let rp = insert_sorted(m, s.drop_last());
        assert forall|i: int, j: int| 0 <= i < j < r.len() implies (#[trigger] r[i]).1
            <= (#[trigger] r[j]).1 by {
            if j < rp.len() {
                assert(rp[i].1 <= rp[j].1);
            } else {
                assert(r[j] == s.last());
                if r[i] != m {
                    let u = choose|u: int|
                        0 <= u < s.drop_last().len() && s.drop_last()[u] == rp[i];
                    assert(s[u].1 <= s[s.len() - 1].1);
                }
            }
        }
    } else {
        let r = insert_sorted(m, s);
        assert forall|i: int, j: int| 0 <= i < j < r.len() implies (#[trigger] r[i]).1
            <= (#[trigger] r[j]).1 by {
            if j < s.len() {
                assert(s[i].1 <= s[j].1);
            } else {
                assert(r[j] == m);
                if i < s.len() {
                    assert(s[i].1 <= s[s.len() - 1].1);
                    assert(s.last().1 <= m.1);
                }
            }
        }
    }
}

/// The stable sort keeps the length and only rearranges entries of `s`, and
/// its result is sorted ascending by score.
pub proof fn lemma_sort_by_score_elems(s: Seq<(usize, u64)>)
    ensures
        sort_by_score(s).len() == s.len(),
        sorted_by_score(sort_by_score(s)),
        forall|t: int|
            0 <= t < sort_by_score(s).len() ==> s.contains(#[trigger] sort_by_score(s)[t]),
    decreases s.len(),
{
    if s.len() == 0 {
    } else {
        lemma_sort_by_score_elems(s.drop_last());
        let rp = sort_by_score(s.drop_last());
        lemma_insert_sorted_sorted(s.last(), rp);
        lemma_insert_sorted_elems(s.last(), rp);
        let r = sort_by_score(s);
        assert forall|t: int| 0 <= t < r.len() implies s.contains(#[trigger] r[t]) by {
            if r[t] == s.last() {
                assert(s[s.len() - 1] == s.last());
            } else {
                assert(rp.contains(r[t]));
                let u = choose|u: int| 0 <= u < rp.len() && rp[u] == r[t];
                assert(s.drop_last().contains(rp[u]));
                let w = choose|w: int|
                    0 <= w < s.drop_last().len() && s.drop_last()[w] == rp[u];
                assert(s[w] == r[t]);
            }
        }
    }
}

proof fn lemma_insert_sorted_stable(m: (usize, u64), s: Seq<(usize, u64)>)
    requires
        ties_in_insertion_order(s),
        forall|t: int| 0 <= t < s.len() ==> (#[trigger] s[t]).0 < m.0,
    ensures
        ties_in_insertion_order(insert_sorted(m, s)),
    decreases s.len(),
{
    if s.len() == 0 {
    } else if m.1 < s.last().1 {
        lemma_insert_sorted_stable(m, s.drop_last());
        lemma_insert_sorted_elems(m, s.drop_last());
        let r = insert_sorted(m, s);
        let rp = insert_sorted(m, s.drop_last());
        assert forall|i: int, j: int|
            0 <= i < j < r.len() && (#[trigger] r[i]).1 == (#[trigger] r[j]).1 implies r[i].0
            < r[j].0 by {
            if j < rp.len() {
                assert(rp[i].1 == rp[j].1);
            } else {
                assert(r[j] == s.last());
                // r[i] is not m: m's score is strictly below s.last()'s
                let u = choose|u: int| 0 <= u < s.drop_last().len() && s.drop_last()[u] == rp[i];
                assert(s[u] == r[i]);
                assert(s[u].1 == s[s.len() - 1].1);
            }
        }
    } else {
        let r = insert_sorted(m, s);
        assert forall|i: int, j: int|
            0 <= i < j < r.len() && (#[trigger] r[i]).1 == (#[trigger] r[j]).1 implies r[i].0
            < r[j].0 by {
            if j < s.len() {
                assert(s[i].1 == s[j].1);
            } else {
                assert(r[j] == m);
            }
        }
    }
}

/// The sort is stable: when the entries of `s` carry strictly increasing
/// first components (as an append-order match list does), two entries with
/// equal scores keep that order in the sorted result.
pub proof fn lemma_sort_by_score_stable(s: Seq<(usize, u64)>)
    requires
        forall|i: int, j: int| 0 <= i < j < s.len() ==> (#[trigger] s[i]).0 < (#[trigger] s[j]).0,
    ensures
        ties_in_insertion_order(sort_by_score(s)),
    decreases s.len(),
{
    if s.len() == 0 {
    } else {
        lemma_sort_by_score_stable(s.drop_last());
        lemma_sort_by_score_elems(s.drop_last());
        let rp = sort_by_score(s.drop_last());
        assert forall|t: int| 0 <= t < rp.len() implies (#[trigger] rp[t]).0 < s.last().0 by {
            assert(s.drop_last().contains(rp[t]));
            let u = choose|u: int| 0 <= u < s.drop_last().len() && s.drop_last()[u] == rp[t];
            assert(s[u] == rp[t]);
            assert(s[u].0 < s[s.len() - 1].0);
        }
        lemma_insert_sorted_stable(s.last(), rp);
    }
}

/// Sorts a match list in place, ascending by score, stably: the result is
/// exactly the stable sort `sort_by_score` of the input.
pub fn sort_matches(v: &mut Vec<(usize, u64)>)
    ensures
        final(v)@ == sort_by_score(old(v)@),
{
    let mut r: Vec<(usize, u64)> = Vec::new();
    let mut k: usize = 0;
    while k < v.len()
        invariant
            k <= v@.len(),
            v@ == old(v)@,
            r@ == sort_by_score(v@.take(k as int)),
        decreases v@.len() - k,
    {
        let m = v[k];
        let mut p: usize = r.len();
        while p > 0 && m.1 < r[p - 1].1
            invariant
                p <= r@.len(),
                forall|t: int| p <= t < r@.len() ==> m.1 < (#[trigger] r@[t]).1,
            decreases p,
        {
            p = p - 1;
        }
        proof {
            lemma_insert_sorted_at(m, r@, p as int);
            assert(v@.take(k + 1).drop_last() =~= v@.take(k as int));
            assert(v@.take(k + 1).last() == v@[k as int]);
        }
        r.insert(p, m);
        proof {
            assert(r@ =~= sort_by_score(v@.take(k as int)).subrange(0, p as int) + seq![m]
                + sort_by_score(v@.take(k as int)).subrange(
                p as int,
                sort_by_score(v@.take(k as int)).len() as int,
            ));
        }
        k = k + 1;
    }
    proof {
        assert(v@.take(v@.len() as int) =~= v@);
    }
    *v = r;
}

} // verus!
