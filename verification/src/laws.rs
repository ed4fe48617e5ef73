//! The properties the library promises across its functions, each stated over
//! the spec functions that the executable contracts use, and proved here.
//! (That every metric returns 0 on identical operands is stated on
//! `metric::score` itself and, for the two exact metrics, proved by
//! `metric::lemma_hamming_self` and `metric::lemma_lev_self`.)

use vstd::prelude::*;
use crate::engine::match_seq;
use crate::metric::{Dist, score_spec};
use crate::profile::{AsoProfile, filter_spec};
use crate::report::{lemma_sort_by_score_elems, lemma_sort_by_score_stable, sort_by_score,
    ties_in_insertion_order};

verus! {

/// The filter only ever passes equal-length pairs, so Hamming — which demands
/// equal-length operands — is never reached with unequal lengths.
pub proof fn lemma_filter_requires_equal_len(q: Seq<char>, l: Seq<char>)
    ensures
        filter_spec(q, l) ==> q.len() == l.len(),
{
}

/// A library sequence textually identical to the query is never a match,
/// whatever the two names are.
pub proof fn lemma_filter_excludes_identical(q: Seq<char>, l: Seq<char>)
    ensures
        q == l ==> !filter_spec(q, l),
{
}

/// Every entry of a match list points at a library entry that passed the
/// filter, and carries that entry's score.
pub proof fn lemma_match_seq_entries(q: Seq<char>, lib: Seq<AsoProfile>, metric: Dist)
    requires
        lib.len() <= usize::MAX,
    ensures
        forall|k: int|
            0 <= k < match_seq(q, lib, metric).len() ==> {
                let e = #[trigger] match_seq(q, lib, metric)[k];
                &&& e.0 < lib.len()
                &&& filter_spec(q, lib[e.0 as int].seq@)
                &&& e.1 == score_spec(metric, q, lib[e.0 as int].seq@)
            },
    decreases lib.len(),
{
    if lib.len() > 0 {
        lemma_match_seq_entries(q, lib.drop_last(), metric);
        let pre = match_seq(q, lib.drop_last(), metric);
        assert forall|k: int| 0 <= k < match_seq(q, lib, metric).len() implies {
            let e = #[trigger] match_seq(q, lib, metric)[k];
            &&& e.0 < lib.len()
            &&& filter_spec(q, lib[e.0 as int].seq@)
            &&& e.1 == score_spec(metric, q, lib[e.0 as int].seq@)
        } by {
            if k < pre.len() {
                assert(match_seq(q, lib, metric)[k] == pre[k]);
                assert(lib.drop_last()[pre[k].0 as int] == lib[pre[k].0 as int]);
            } else {
                assert(lib[lib.len() - 1] == lib.last());
            }
        }
    }
}

/// The entries of a match list carry strictly increasing library indices:
/// they are appended in library order.
pub proof fn lemma_match_seq_ascending(q: Seq<char>, lib: Seq<AsoProfile>, metric: Dist)
    requires
        lib.len() <= usize::MAX,
    ensures
        forall|i: int, j: int|
            0 <= i < j < match_seq(q, lib, metric).len() ==> (#[trigger] match_seq(
                q,
                lib,
                metric,
            )[i]).0 < (#[trigger] match_seq(q, lib, metric)[j]).0,
    decreases lib.len(),
{
    if lib.len() > 0 {
        lemma_match_seq_ascending(q, lib.drop_last(), metric);
        lemma_match_seq_entries(q, lib.drop_last(), metric);
        let pre = match_seq(q, lib.drop_last(), metric);
        assert forall|i: int, j: int|
            0 <= i < j < match_seq(q, lib, metric).len() implies (#[trigger] match_seq(
            q,
            lib,
            metric,
        )[i]).0 < (#[trigger] match_seq(q, lib, metric)[j]).0 by {
            if j < pre.len() {
                assert(match_seq(q, lib, metric)[i] == pre[i]);
                assert(match_seq(q, lib, metric)[j] == pre[j]);
            } else {
                assert(match_seq(q, lib, metric)[i] == pre[i]);
                assert(pre[i].0 < lib.drop_last().len());
            }
        }
    }
}

/// A library entry the filter rejects for a query is referenced by no entry
/// of that query's ranked match list.
pub proof fn lemma_filtered_never_reported(
    q: Seq<char>,
    lib: Seq<AsoProfile>,
    metric: Dist,
    j: int,
)
    requires
        lib.len() <= usize::MAX,
        0 <= j < lib.len(),
        !filter_spec(q, lib[j].seq@),
    ensures
        forall|k: int|
            0 <= k < sort_by_score(match_seq(q, lib, metric)).len() ==> (#[trigger] sort_by_score(
                match_seq(q, lib, metric),
            )[k]).0 != j,
{
    lemma_match_seq_entries(q, lib, metric);
    lemma_sort_by_score_elems(match_seq(q, lib, metric));
    let ms = match_seq(q, lib, metric);
    let ranked = sort_by_score(ms);
    assert forall|k: int| 0 <= k < ranked.len() implies (#[trigger] ranked[k]).0 != j by {
        assert(ms.contains(ranked[k]));
        let u = choose|u: int| 0 <= u < ms.len() && ms[u] == ranked[k];
        assert(filter_spec(q, lib[ms[u].0 as int].seq@));
    }
}

/// The ranked report of a query lists two library entries that tie on score
/// in their library order: the ranking sort is stable and the match list is
/// appended in library order.
pub proof fn lemma_report_ties_in_library_order(q: Seq<char>, lib: Seq<AsoProfile>, metric: Dist)
    requires
        lib.len() <= usize::MAX,
    ensures
        ties_in_insertion_order(sort_by_score(match_seq(q, lib, metric))),
{
    lemma_match_seq_ascending(q, lib, metric);
    lemma_sort_by_score_stable(match_seq(q, lib, metric));
}

} // verus!
