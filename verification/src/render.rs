//! Rendering for the report's deterministic tabular form: decimal distance
//! text, left-padded fixed-width-style columns, and the three line shapes
//! (table header, query header, match line). Only turning a Sift3 score back
//! into its decimal text is left to the caller, since that goes through the
//! metric's floating-point representation.

use vstd::prelude::*;
use vstd::string::{StrSliceExecFns, StringExecFns};

verus! {

pub open spec fn digit_char(d: nat) -> char {
    if d == 0 {
        '0'
    } else if d == 1 {
        '1'
    } else if d == 2 {
        '2'
    } else if d == 3 {
        '3'
    } else if d == 4 {
        '4'
    } else if d == 5 {
        '5'
    } else if d == 6 {
        '6'
    } else if d == 7 {
        '7'
    } else if d == 8 {
        '8'
    } else {
        '9'
    }
}

/// The decimal representation of `n`, most significant digit first, with no
/// leading zero except for `n == 0` itself.
pub open spec fn dec_digits(n: nat) -> Seq<char>
    decreases n,
{
    if n < 10 {
        seq![digit_char(n)]
    } else {
        dec_digits(n / 10).push(digit_char(n % 10))
    }
}

fn digit_str(d: u64) -> (r: &'static str)
    requires
        d < 10,
    ensures
        r@ == seq![digit_char(d as nat)],
{
    proof {
        reveal_strlit("0");
        reveal_strlit("1");
        reveal_strlit("2");
        reveal_strlit("3");
        reveal_strlit("4");
        reveal_strlit("5");
        reveal_strlit("6");
        reveal_strlit("7");
        reveal_strlit("8");
        reveal_strlit("9");
    }
    let r = if d == 0 {
        "0"
    } else if d == 1 {
        "1"
    } else if d == 2 {
        "2"
    } else if d == 3 {
        "3"
    } else if d == 4 {
        "4"
    } else if d == 5 {
        "5"
    } else if d == 6 {
        "6"
    } else if d == 7 {
        "7"
    } else if d == 8 {
        "8"
    } else {
        "9"
    };
    proof {
        assert(r@ =~= seq![digit_char(d as nat)]);
    }
    r
}

/// The decimal text of `n`; this is how a Hamming or Levenshtein distance
/// appears in the report.
pub fn format_u64(n: u64) -> (r: String)
    ensures
        r@ == dec_digits(n as nat),
    decreases n,
{
    if n < 10 {
        String::from_str(digit_str(n))
    } else {
        let mut r = format_u64(n / 10);
        r.append(digit_str(n % 10));
        proof {
            assert(r@ =~= dec_digits(n as nat));
        }
        r
    }
}

/// `s` padded on the right with spaces to at least `w` characters.
pub open spec fn padded(s: Seq<char>, w: nat) -> Seq<char>
    decreases w,
{
    if s.len() >= w {
        s
    } else {
        padded(s, (w - 1) as nat).push(' ')
    }
}

/// Left-aligns `s` in a column of `width` characters, as the report's
/// fixed-width-style columns demand; a longer `s` stays as it is.
pub fn pad_right(s: &str, width: usize) -> (r: String)
    ensures
        r@ == padded(s@, width as nat),
{
    let mut r = s.to_owned();
    let mut k = s.unicode_len();
    if k >= width {
        return r;
    }
    while k < width
        invariant
            k >= s@.len(),
            k <= width,
            r@ == padded(s@, k as nat),
        decreases width - k,
    {
        r.append(" ");
        proof {
            reveal_strlit(" ");
            assert(padded(s@, k as nat).push(' ') =~= padded(s@, k as nat) + " "@);
        }
        k = k + 1;
    }
    r
}

/// The report's column separator.
pub open spec fn tab() -> Seq<char> {
    seq!['\t']
}

/// The one header line of the report table.
pub open spec fn header_line() -> Seq<char> {
    padded("Input ASO"@, 10) + tab() + padded("Seq"@, 20) + tab() + padded("Matching ASO"@, 10)
        + tab() + padded("Seq"@, 20) + tab() + "Distance"@
}

/// The header line a query emits: its name and sequence, each in its column.
pub open spec fn query_line(name: Seq<char>, seq_text: Seq<char>) -> Seq<char> {
    padded(name, 10) + tab() + padded(seq_text, 20)
}

/// One match line: two empty leading columns, then the matched library
/// entry's name and sequence and the distance text.
pub open spec fn match_line(name: Seq<char>, seq_text: Seq<char>, dist_text: Seq<char>) -> Seq<
    char,
> {
    padded(Seq::empty(), 10) + tab() + padded(Seq::empty(), 20) + tab() + padded(name, 10) + tab()
        + padded(seq_text, 20) + tab() + dist_text
}

pub fn render_header_line() -> (r: String)
    ensures
        r@ == header_line(),
{
    proof {
        reveal_strlit("\t");
    }
    let mut r = pad_right("Input ASO", 10);
    r.append("\t");
    let c2 = pad_right("Seq", 20);
    r.append(c2.as_str());
    r.append("\t");
    let c3 = pad_right("Matching ASO", 10);
    r.append(c3.as_str());
    r.append("\t");
    let c4 = pad_right("Seq", 20);
    r.append(c4.as_str());
    r.append("\t");
    r.append("Distance");
    proof {
        assert(r@ =~= header_line());
    }
    r
}

pub fn render_query_line(name: &str, seq_text: &str) -> (r: String)
    ensures
        r@ == query_line(name@, seq_text@),
{
    proof {
        reveal_strlit("\t");
    }
    let mut r = pad_right(name, 10);
    r.append("\t");
    let c2 = pad_right(seq_text, 20);
    r.append(c2.as_str());
    proof {
        assert(r@ =~= query_line(name@, seq_text@));
    }
    r
}

pub fn render_match_line(name: &str, seq_text: &str, dist_text: &str) -> (r: String)
    ensures
        r@ == match_line(name@, seq_text@, dist_text@),
{
    proof {
        reveal_strlit("\t");
        reveal_strlit("");
    }
    let mut r = pad_right("", 10);
    r.append("\t");
    let c2 = pad_right("", 20);
    r.append(c2.as_str());
    r.append("\t");
    let c3 = pad_right(name, 10);
    r.append(c3.as_str());
    r.append("\t");
    let c4 = pad_right(seq_text, 20);
    r.append(c4.as_str());
    r.append("\t");
    r.append(dist_text);
    proof {
        assert(""@ =~= Seq::<char>::empty());
        assert(r@ =~= match_line(name@, seq_text@, dist_text@));
    }
    r
}

} // verus!
