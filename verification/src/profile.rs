//! Per-sequence profiles: name, raw sequence, character length and
//! nucleotide composition, plus the accumulated match list of a query.

use vstd::prelude::*;
use vstd::string::StrSliceExecFns;

verus! {

/// How many characters of `s` are exactly `c`.
pub open spec fn count_char(s: Seq<char>, c: char) -> nat
    decreases s.len(),
{
    if s.len() == 0 {
        0
    } else {
        count_char(s.drop_last(), c) + (if s.last() == c {
            1nat
        } else {
            0nat
        })
    }
}

proof fn lemma_count_char_bound(s: Seq<char>, c: char)
    ensures
        count_char(s, c) <= s.len(),
    decreases s.len(),
{
    if s.len() > 0 {
        lemma_count_char_bound(s.drop_last(), c);
    }
}

/// Counts of the four nucleotide symbols in `seq`, in the order A, T, G, C.
/// Characters outside {A, T, G, C} are ignored: they are neither counted nor
/// rejected.
pub fn atgc_count(seq: &str) -> (r: [usize; 4])
    ensures
        r[0] == count_char(seq@, 'A'),
        r[1] == count_char(seq@, 'T'),
        r[2] == count_char(seq@, 'G'),
        r[3] == count_char(seq@, 'C'),
{
    let n = seq.unicode_len();
    let mut count_n: [usize; 4] = [0, 0, 0, 0];
    let mut i: usize = 0;
    while i < n
        invariant
            n == seq@.len(),
            i <= n,
            count_n[0] == count_char(seq@.take(i as int), 'A'),
            count_n[1] == count_char(seq@.take(i as int), 'T'),
            count_n[2] == count_char(seq@.take(i as int), 'G'),
            count_n[3] == count_char(seq@.take(i as int), 'C'),
        decreases n - i,
    {
        proof {
            lemma_count_char_bound(seq@.take(i as int), 'A');
            lemma_count_char_bound(seq@.take(i as int), 'T');
            lemma_count_char_bound(seq@.take(i as int), 'G');
            lemma_count_char_bound(seq@.take(i as int), 'C');
            assert(seq@.take(i + 1).drop_last() =~= seq@.take(i as int));
            assert(seq@.take(i + 1).last() == seq@[i as int]);
        }
        let ch = seq.get_char(i);
        if ch == 'A' {
            count_n[0] = count_n[0] + 1;
        } else if ch == 'T' {
            count_n[1] = count_n[1] + 1;
        } else if ch == 'G' {
            count_n[2] = count_n[2] + 1;
        } else if ch == 'C' {
            count_n[3] = count_n[3] + 1;
        }
        i = i + 1;
    }
    proof {
        assert(seq@.take(n as int) =~= seq@);
    }
    count_n
}

/// All windows of `win_size` consecutive characters of `src`, in order of
/// their starting position; a window that would run past the end of `src` is
/// dropped. With `win_size` 1 this is the character sequence itself.
pub fn char_windows(src: &str, win_size: usize) -> (r: Vec<String>)
    requires
        win_size >= 1,
    ensures
        r@.len() == (if src@.len() >= win_size {
            src@.len() - win_size + 1
        } else {
            0
        }),
        forall|i: int|
            0 <= i < r@.len() ==> (#[trigger] r@[i])@ == src@.subrange(i, i + win_size),
{
    let n = src.unicode_len();
    let mut r: Vec<String> = Vec::new();
    if n < win_size {
        return r;
    }
    let mut i: usize = 0;
    while i <= n - win_size
        invariant
            n == src@.len(),
            win_size >= 1,
            n >= win_size,
            i <= n - win_size + 1,
            r@.len() == i,
            forall|k: int|
                0 <= k < r@.len() ==> (#[trigger] r@[k])@ == src@.subrange(k, k + win_size),
        decreases n - win_size + 1 - i,
    {
        let w = src.substring_char(i, i + win_size);
        r.push(w.to_owned());
        i = i + 1;
    }
    r
}

/// One sequence and what the engine derives from it once, at construction:
/// its character length and its nucleotide composition. Query-side profiles
/// additionally accumulate `aso_names`, the matching library entries as
/// (library index, score) pairs; library-side profiles keep it empty.
pub struct AsoProfile {
    pub name: String,
    pub seq: String,
    pub aso_len: usize,
    pub atgc: [usize; 4],
    pub aso_names: Vec<(usize, u64)>,
}

impl AsoProfile {
    /// The derived fields agree with the sequence.
    pub open spec fn wf(self) -> bool {
        &&& self.aso_len == self.seq@.len()
        &&& self.atgc[0] == count_char(self.seq@, 'A')
        &&& self.atgc[1] == count_char(self.seq@, 'T')
        &&& self.atgc[2] == count_char(self.seq@, 'G')
        &&& self.atgc[3] == count_char(self.seq@, 'C')
    }

    /// Builds a profile: length and composition are computed eagerly, the
    /// match list starts empty.
    pub fn new(name: String, seq: String) -> (r: AsoProfile)
        ensures
            r.name == name,
            r.seq == seq,
            r.wf(),
            r.aso_names@ == Seq::<(usize, u64)>::empty(),
    {
        let aso_len = seq.as_str().unicode_len();
        let atgc = atgc_count(seq.as_str());
        AsoProfile { name, seq, aso_len, atgc, aso_names: Vec::new() }
    }
}

/// Whether a (query, library) pair is worth scoring at all: the two sequences
/// must have the same character length and the same nucleotide composition,
/// and must not be textually identical.
pub open spec fn filter_spec(q: Seq<char>, l: Seq<char>) -> bool {
    &&& q.len() == l.len()
    &&& count_char(q, 'A') == count_char(l, 'A')
    &&& count_char(q, 'T') == count_char(l, 'T')
    &&& count_char(q, 'G') == count_char(l, 'G')
    &&& count_char(q, 'C') == count_char(l, 'C')
    &&& q != l
}

/// Decides `filter_spec` for two profiles from their precomputed fields; only
/// the sequence-identity test reads the sequences themselves.
pub fn match_filter(q: &AsoProfile, l: &AsoProfile) -> (r: bool)
    requires
        q.wf(),
        l.wf(),
    ensures
        r == filter_spec(q.seq@, l.seq@),
{
    q.aso_len == l.aso_len && q.atgc[0] == l.atgc[0] && q.atgc[1] == l.atgc[1] && q.atgc[2]
        == l.atgc[2] && q.atgc[3] == l.atgc[3] && !(q.seq == l.seq)
}

} // verus!
