//! The three string-distance metrics. Exactly one metric is selected per run;
//! every score of a run therefore comes from the same metric and the scores
//! are totally ordered as plain `u64` values.
//!
//! Hamming and Levenshtein scores are the distances themselves. A Sift3 score
//! is the IEEE-754 bit pattern of the (non-negative, `f32`) result of
//! `distance::sift3`; for non-negative floats the unsigned order of the bit
//! patterns is the numeric order of the values, so sorting by score sorts by
//! the Sift3 distance.

use vstd::prelude::*;

verus! {

/// The metric a run scores surviving pairs with.
#[derive(Debug, PartialEq, Eq, Structural, Copy, Clone)]
pub enum Dist {
    Hamming,
    Levenshtein,
    Sift3,
}

/// Number of positions at which two equal-length character sequences differ.
pub open spec fn hamming_seq(a: Seq<char>, b: Seq<char>) -> nat
    recommends
        a.len() == b.len(),
    decreases a.len(),
{
    if a.len() == 0 || b.len() == 0 {
        0
    } else {
        hamming_seq(a.drop_last(), b.drop_last()) + (if a.last() == b.last() {
            0nat
        } else {
            1nat
        })
    }
}

pub open spec fn min3(a: nat, b: nat, c: nat) -> nat {
    if a <= b && a <= c {
        a
    } else if b <= c {
        b
    } else {
        c
    }
}

/// Minimum number of single-character insertions, deletions and substitutions
/// that transform `a` into `b`.
pub open spec fn lev_seq(a: Seq<char>, b: Seq<char>) -> nat
    decreases a.len() + b.len(),
{
    if a.len() == 0 {
        b.len()
    } else if b.len() == 0 {
        a.len()
    } else {
        let sub_cost: nat = if a.last() == b.last() {
            0
        } else {
            1
        };
        min3(
            lev_seq(a.drop_last(), b) + 1,
            lev_seq(a, b.drop_last()) + 1,
            lev_seq(a.drop_last(), b.drop_last()) + sub_cost,
        )
    }
}

/// The Sift3 score of two character sequences: the bit pattern of the `f32`
/// that `distance::sift3` returns. The result of that call depends on the two
/// sequences alone.
pub uninterp spec fn sift3_score(a: Seq<char>, b: Seq<char>) -> u32;

/// A distance under one metric, as the `u64` every match list carries: the
/// count itself for Hamming and Levenshtein, the named bit pattern for Sift3.
pub open spec fn score_spec(metric: Dist, a: Seq<char>, b: Seq<char>) -> u64 {
    match metric {
        Dist::Hamming => hamming_seq(a, b) as u64,
        Dist::Levenshtein => lev_seq(a, b) as u64,
        Dist::Sift3 => sift3_score(a, b) as u64,
    }
}

/// Identical sequences are at Hamming distance 0.
pub proof fn lemma_hamming_self(s: Seq<char>)
    ensures
        hamming_seq(s, s) == 0,
    decreases s.len(),
{
    if s.len() > 0 {
        lemma_hamming_self(s.drop_last());
    }
}

/// Identical sequences are at Levenshtein distance 0.
pub proof fn lemma_lev_self(s: Seq<char>)
    ensures
        lev_seq(s, s) == 0,
    decreases s.len(),
{
    if s.len() > 0 {
        lemma_lev_self(s.drop_last());
    }
}

/// Relies on `distance::hamming`: on operands with the same number of
/// characters it returns `Ok` of the number of positions at which the two
/// `chars()` streams differ; `Err` arises only when the character counts
/// differ, which the precondition rules out.
#[verifier::external_body]
fn hamming_call(a: &str, b: &str) -> (r: usize)
    requires
        a@.len() == b@.len(),
    ensures
        r as nat == hamming_seq(a@, b@),
{
    distance::hamming(a, b).unwrap()
}

/// Relies on `distance::levenshtein`: the classic dynamic program for the
/// minimum number of single-character insertions, deletions and substitutions
/// transforming one `chars()` stream into the other.
#[verifier::external_body]
fn levenshtein_call(a: &str, b: &str) -> (r: usize)
    ensures
        r as nat == lev_seq(a@, b@),
{
    distance::levenshtein(a, b)
}

/// Relies on `distance::sift3`: a deterministic function of the two `chars()`
/// streams alone, returned here as the bit pattern of its non-negative `f32`
/// result. Its source matches every position of two identical streams, so two
/// identical operands give exactly 0.0, whose bit pattern is 0.
#[verifier::external_body]
fn sift3_call(a: &str, b: &str) -> (r: u32)
    ensures
        r == sift3_score(a@, b@),
        a@ == b@ ==> r == 0,
{
    distance::sift3(a, b).to_bits()
}

/// Scores one surviving (query, library) pair under the selected metric.
/// Hamming is only ever called on equal-length operands; the match filter
/// guarantees that to every caller inside this crate.
pub fn score(metric: Dist, a: &str, b: &str) -> (r: u64)
    requires
        metric == Dist::Hamming ==> a@.len() == b@.len(),
    ensures
        r == score_spec(metric, a@, b@),
        a@ == b@ ==> r == 0,
{
    match metric {
        Dist::Hamming => {
            proof {
                if a@ == b@ {
                    lemma_hamming_self(a@);
                }
            }
            let d = hamming_call(a, b);
            d as u64
        },
        Dist::Levenshtein => {
            proof {
                if a@ == b@ {
                    lemma_lev_self(a@);
                }
            }
            let d = levenshtein_call(a, b);
            d as u64
        },
        Dist::Sift3 => {
            let d = sift3_call(a, b);
            d as u64
        },
    }
}

} // verus!
