use vstd::prelude::*;

verus! {

// Locale-tolerant parsing of the numeric score column. Scores are kept as
// exact decimals: `mantissa` scaled down by `frac` decimal places, with an
// explicit sign. A value such as "7,3" (decimal comma) or "7.3" becomes
// mantissa 73 with one fractional digit. Anything that is not a plain
// decimal literal defaults to zero, so a malformed score never fails a row.

/// Largest mantissa that can still take one more digit without leaving `u64`.
pub const MANT_CAP: u64 = 1844674407370955160;

/// An exact decimal: `(-1)^neg * mantissa / 10^frac`.
#[derive(PartialEq, Eq, Structural, Clone, Copy, Debug)]
pub struct Score {
    pub neg: bool,
    pub mantissa: u64,
    pub frac: u64,
}

impl Score {
    /// The default score used when a value is absent or unparsable.
    pub open spec fn spec_zero() -> Score {
        Score { neg: false, mantissa: 0, frac: 0 }
    }

    pub fn zero() -> (r: Score)
        ensures
            r == Score::spec_zero(),
    {
        Score { neg: false, mantissa: 0, frac: 0 }
    }
}

pub open spec fn is_digit_char(c: char) -> bool {
    c == '0' || c == '1' || c == '2' || c == '3' || c == '4' || c == '5' || c == '6' || c == '7'
        || c == '8' || c == '9'
}

pub open spec fn digit_val(c: char) -> int {
    if c == '0' {
        0
    } else if c == '1' {
        1
    } else if c == '2' {
        2
    } else if c == '3' {
        3
    } else if c == '4' {
        4
    } else if c == '5' {
        5
    } else if c == '6' {
        6
    } else if c == '7' {
        7
    } else if c == '8' {
        8
    } else {
        9
    }
}

/// The numeric value of a digit character, or 10 for any other character.
pub fn digit_of(c: char) -> (r: u64)
    ensures
        (r < 10) == is_digit_char(c),
        r < 10 ==> r as int == digit_val(c),
{
    if c == '0' {
        0
    } else if c == '1' {
        1
    } else if c == '2' {
        2
    } else if c == '3' {
        3
    } else if c == '4' {
        4
    } else if c == '5' {
        5
    } else if c == '6' {
        6
    } else if c == '7' {
        7
    } else if c == '8' {
        8
    } else if c == '9' {
        9
    } else {
        10
    }
}

/// Scanner over the digits of a decimal literal, one character at a time.
/// `m` and `f` are the mantissa and fraction-digit count accumulated so
/// far; the scan fails on a character that fits no decimal literal, on a
/// second decimal mark, on a mantissa too large for `u64`, or when no
/// digit at all was seen. Both '.' and ',' are accepted as the decimal
/// mark, which is what normalising a decimal comma amounts to.
pub open spec fn scan_score(
    s: Seq<char>,
    i: int,
    m: int,
    f: int,
    seen_digit: bool,
    seen_dot: bool,
) -> Option<(int, int)>
    decreases s.len() - i,
{
    if i < 0 || i > s.len() {
        None
    } else if i == s.len() {
        if seen_digit {
            Some((m, f))
        } else {
            None
        }
    } else {
        let c = s[i];
        if is_digit_char(c) {
            if m > MANT_CAP {
                None
            } else {
                scan_score(
                    s,
                    i + 1,
                    m * 10 + digit_val(c),
                    if seen_dot { f + 1 } else { f },
                    true,
                    seen_dot,
                )
            }
        } else if c == '.' || c == ',' {
            if seen_dot {
                None
            } else {
                scan_score(s, i + 1, m, f, seen_digit, true)
            }
        } else {
            None
        }
    }
}

/// The score a raw field value denotes: an optional sign followed by a
/// decimal literal, with either '.' or ',' as the decimal mark; any other
/// shape (including the empty string) denotes the zero default.
pub open spec fn score_of(s: Seq<char>) -> Score {
    let neg = s.len() > 0 && s[0] == '-';
    let start: int = if s.len() > 0 && (s[0] == '-' || s[0] == '+') {
        1
    } else {
        0
    };
    match scan_score(s, start, 0, 0, false, false) {
        Some(p) => Score { neg, mantissa: p.0 as u64, frac: p.1 as u64 },
        None => Score::spec_zero(),
    }
}

/// Parses a raw score field. Never fails: anything unparsable is the zero
/// default, mirroring best-effort ingestion.
pub fn parse_score(v: &Vec<char>) -> (r: Score)
    ensures
        r == score_of(v@),
{
    let n = v.len();
    let mut i: usize = 0;
    let mut neg = false;
    if n > 0 && (v[0] == '-' || v[0] == '+') {
        neg = v[0] == '-';
        i = 1;
    }
    let ghost start = i as int;
    let mut m: u64 = 0;
    let mut f: u64 = 0;
    let mut seen_digit = false;
    let mut seen_dot = false;
    while i < n
        invariant
            n == v@.len(),
            start <= i as int <= n as int,
            start == if v@.len() > 0 && (v@[0] == '-' || v@[0] == '+') {
                1int
            } else {
                0int
            },
            neg == (v@.len() > 0 && v@[0] == '-'),
            m <= MANT_CAP * 10 + 9,
            f <= i,
            scan_score(v@, start, 0, 0, false, false) == scan_score(
                v@,
                i as int,
                m as int,
                f as int,
                seen_digit,
                seen_dot,
            ),
        decreases n - i,
    {
        let c = v[i];
        let d = digit_of(c);
        if d < 10 {
            if m > MANT_CAP {
                return Score::zero();
            }
            m = m * 10 + d;
            if seen_dot {
                f = f + 1;
            }
            seen_digit = true;
        } else if c == '.' || c == ',' {
            if seen_dot {
                return Score::zero();
            }
            seen_dot = true;
        } else {
            return Score::zero();
        }
        i = i + 1;
    }
    if seen_digit {
        Score { neg, mantissa: m, frac: f }
    } else {
        Score::zero()
    }
}

} // verus!
