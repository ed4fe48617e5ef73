//! The matching engine: builds profiles from raw (name, sequence) rows,
//! applies the pre-filter over the (query, library) cross product, scores the
//! surviving pairs under the selected metric, and ranks each query's matches.

use vstd::prelude::*;
use crate::metric::{Dist, score, score_spec};
use crate::profile::{AsoProfile, filter_spec, match_filter};
use crate::report::{sort_by_score, sort_matches};

verus! {

/// Every row carries at least the two required fields (name, sequence).
pub open spec fn rows_complete(rows: Seq<Vec<String>>) -> bool {
    forall|i: int| 0 <= i < rows.len() ==> (#[trigger] rows[i])@.len() >= 2
}

/// A fatal input fault: a row of one of the two sources supplies fewer than
/// the two required fields. `row` is the first such row of that source.
#[derive(Debug, PartialEq, Eq, Structural, Copy, Clone)]
pub enum MatchError {
    IncompleteInputRow { row: usize },
    IncompleteLibraryRow { row: usize },
}

/// One profile per row, in row order. Fails fast: the first row with fewer
/// than two fields aborts the build, and `Err` names that row. Fields beyond
/// the first two are ignored.
pub fn build_profiles(rows: &Vec<Vec<String>>) -> (r: Result<Vec<AsoProfile>, usize>)
    ensures
        r is Ok <==> rows_complete(rows@),
        r is Ok ==> {
            let ps = r->Ok_0;
            &&& ps@.len() == rows@.len()
            &&& (forall|i: int|
                0 <= i < ps@.len() ==> {
                    let p = #[trigger] ps@[i];
                    &&& p.name == rows@[i]@[0]
                    &&& p.seq == rows@[i]@[1]
                    &&& p.wf()
                    &&& p.aso_names@ == Seq::<(usize, u64)>::empty()
                })
        },
        r is Err ==> r->Err_0 < rows@.len() && rows@[r->Err_0 as int]@.len() < 2 && (forall|i: int|
            0 <= i < r->Err_0 ==> (#[trigger] rows@[i])@.len() >= 2),
{
    let mut ps: Vec<AsoProfile> = Vec::new();
    let mut i: usize = 0;
    while i < rows.len()
        invariant
            i <= rows@.len(),
            ps@.len() == i,
            forall|k: int| 0 <= k < i ==> (#[trigger] rows@[k])@.len() >= 2,
            forall|k: int|
                0 <= k < i ==> {
                    let p = #[trigger] ps@[k];
                    &&& p.name == rows@[k]@[0]
                    &&& p.seq == rows@[k]@[1]
                    &&& p.wf()
                    &&& p.aso_names@ == Seq::<(usize, u64)>::empty()
                },
        decreases rows@.len() - i,
    {
        if rows[i].len() < 2 {
            return Err(i);
        }
        let name = rows[i][0].clone();
        let seq = rows[i][1].clone();
        ps.push(AsoProfile::new(name, seq));
        i = i + 1;
    }
    Ok(ps)
}

/// The match list of one query against a library prefix: for every library
/// entry that passes the filter, in library order, the pair of its index and
/// its score under `metric`.
pub open spec fn match_seq(q: Seq<char>, lib: Seq<AsoProfile>, metric: Dist) -> Seq<(usize, u64)>
    decreases lib.len(),
{
    if lib.len() == 0 {
        Seq::empty()
    } else {
        let pre = match_seq(q, lib.drop_last(), metric);
        if filter_spec(q, lib.last().seq@) {
            pre.push(((lib.len() - 1) as usize, score_spec(metric, q, lib.last().seq@)))
        } else {
            pre
        }
    }
}

/// Scores one query against the whole library: consults the filter for every
/// library entry in order, scores the survivors, and appends (index, score).
/// Hamming is only reached through the filter, which guarantees equal-length
/// operands.
pub fn query_matches(q: &AsoProfile, library: &Vec<AsoProfile>, metric: Dist) -> (names: Vec<
    (usize, u64),
>)
    requires
        q.wf(),
        forall|j: int| 0 <= j < library@.len() ==> (#[trigger] library@[j]).wf(),
    ensures
        names@ == match_seq(q.seq@, library@, metric),
{
    let mut names: Vec<(usize, u64)> = Vec::new();
    let mut j: usize = 0;
    while j < library.len()
        invariant
            q.wf(),
            forall|t: int| 0 <= t < library@.len() ==> (#[trigger] library@[t]).wf(),
            j <= library@.len(),
            names@ == match_seq(q.seq@, library@.take(j as int), metric),
        decreases library@.len() - j,
    {
        proof {
            assert(library@.take(j + 1).drop_last() =~= library@.take(j as int));
            assert(library@.take(j + 1).last() == library@[j as int]);
        }
        if match_filter(q, &library[j]) {
            let d = score(metric, q.seq.as_str(), library[j].seq.as_str());
            names.push((j, d));
        }
        j = j + 1;
    }
    proof {
        assert(library@.take(library@.len() as int) =~= library@);
    }
    names
}

/// The whole run on already-parsed rows: builds the query profiles (checked
/// first) and the library profiles, fails fast on the first incomplete row of
/// either source, and otherwise returns the query profiles carrying their
/// ranked match lists, together with the library profiles their entries index
/// into. Each query's list is exactly the stable ascending sort of its
/// filtered, scored cross product with the library.
pub fn compute_distance(library_rows: &Vec<Vec<String>>, input_rows: &Vec<Vec<String>>, metric: Dist) -> (r:
    Result<(Vec<AsoProfile>, Vec<AsoProfile>), MatchError>)
    ensures
        r is Ok <==> rows_complete(input_rows@) && rows_complete(library_rows@),
        r is Ok ==> ({
            let qs = r->Ok_0.0;
            let lib = r->Ok_0.1;
            &&& lib@.len() == library_rows@.len()
            &&& (forall|i: int|
                0 <= i < lib@.len() ==> {
                    let p = #[trigger] lib@[i];
                    &&& p.name == library_rows@[i]@[0]
                    &&& p.seq == library_rows@[i]@[1]
                    &&& p.wf()
                    &&& p.aso_names@ == Seq::<(usize, u64)>::empty()
                })
            &&& qs@.len() == input_rows@.len()
            &&& (forall|i: int|
                0 <= i < qs@.len() ==> {
                    let p = #[trigger] qs@[i];
                    &&& p.name == input_rows@[i]@[0]
                    &&& p.seq == input_rows@[i]@[1]
                    &&& p.wf()
                    &&& p.aso_names@ == sort_by_score(match_seq(p.seq@, lib@, metric))
                })
        }),
        r is Err ==> match r->Err_0 {
            MatchError::IncompleteInputRow { row } => row < input_rows@.len()
                && input_rows@[row as int]@.len() < 2 && (forall|i: int|
                0 <= i < row ==> (#[trigger] input_rows@[i])@.len() >= 2),
            MatchError::IncompleteLibraryRow { row } => rows_complete(input_rows@) && row
                < library_rows@.len() && library_rows@[row as int]@.len() < 2 && (forall|i: int|
                0 <= i < row ==> (#[trigger] library_rows@[i])@.len() >= 2),
        },
{
    let input_profiles = match build_profiles(input_rows) {
        Ok(v) => v,
        Err(row) => {
            return Err(MatchError::IncompleteInputRow { row });
        },
    };
    let library_profiles = match build_profiles(library_rows) {
        Ok(v) => v,
        Err(row) => {
            return Err(MatchError::IncompleteLibraryRow { row });
        },
    };
    let mut out: Vec<AsoProfile> = Vec::new();
    let mut i: usize = 0;
    while i < input_profiles.len()
        invariant
            i <= input_profiles@.len(),
            out@.len() == i,
            input_profiles@.len() == input_rows@.len(),
            forall|t: int| 0 <= t < library_profiles@.len() ==> (#[trigger] library_profiles@[t]).wf(),
            forall|k: int|
                0 <= k < input_profiles@.len() ==> {
                    let p = #[trigger] input_profiles@[k];
                    &&& p.name == input_rows@[k]@[0]
                    &&& p.seq == input_rows@[k]@[1]
                    &&& p.wf()
                },
            forall|k: int|
                0 <= k < i ==> {
                    let p = #[trigger] out@[k];
                    &&& p.name == input_rows@[k]@[0]
                    &&& p.seq == input_rows@[k]@[1]
                    &&& p.wf()
                    &&& p.aso_names@ == sort_by_score(
                        match_seq(p.seq@, library_profiles@, metric),
                    )
                },
        decreases input_profiles@.len() - i,
    {
        let mut names = query_matches(&input_profiles[i], &library_profiles, metric);
        sort_matches(&mut names);
        let ranked = AsoProfile {
            name: input_profiles[i].name.clone(),
            seq: input_profiles[i].seq.clone(),
            aso_len: input_profiles[i].aso_len,
            atgc: input_profiles[i].atgc,
            aso_names: names,
        };
        out.push(ranked);
        i = i + 1;
    }
    Ok((out, library_profiles))
}

} // verus!
