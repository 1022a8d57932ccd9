use vstd::prelude::*;
use vstd::string::*;

verus! {

// Character-level utilities shared by the decoder, the field mapper and the
// analyst-facing validation: conversions between `str` and `Vec<char>`,
// whitespace trimming, decimal rendering of counters, and base-name
// extraction from a path string.

/// The whitespace characters recognised when a justification is trimmed:
/// space, tab, line feed, vertical tab, form feed and carriage return.
pub open spec fn is_space_char(c: char) -> bool {
    c == ' ' || c == '\t' || c == '\n' || c == '\r' || c == '\u{b}' || c == '\u{c}'
}

pub fn is_space(c: char) -> (r: bool)
    ensures
        r == is_space_char(c),
{
    c == ' ' || c == '\t' || c == '\n' || c == '\r' || c == '\u{b}' || c == '\u{c}'
}

/// Copies the characters of a string slice into a vector, in order.
pub fn chars_of(s: &str) -> (r: Vec<char>)
    ensures
        r@ == s@,
{
    let n = s.unicode_len();
    let mut r: Vec<char> = Vec::new();
    let mut i: usize = 0;
    while i < n
        invariant
            n == s@.len(),
            i <= n,
            r@ == s@.subrange(0, i as int),
        decreases n - i,
    {
        let c = s.get_char(i);
        r.push(c);
        i = i + 1;
        proof {
            assert(r@ =~= s@.subrange(0, i as int));
        }
    }
    proof {
        assert(r@ =~= s@);
    }
    r
}

/// Relies on std's `String::push`: it appends exactly the pushed character
/// to the end of the string.
#[verifier::external_body]
pub fn string_from_chars(v: &Vec<char>) -> (r: String)
    ensures
        r@ == v@,
{
    let mut s = String::new();
    for c in v.iter() {
        s.push(*c);
    }
    s
}

/// A fresh copy of a character vector.
pub fn copy_chars(v: &Vec<char>) -> (r: Vec<char>)
    ensures
        r@ == v@,
{
    let n = v.len();
    let mut r: Vec<char> = Vec::new();
    let mut i: usize = 0;
    while i < n
        invariant
            n == v@.len(),
            i <= n,
            r@ == v@.subrange(0, i as int),
        decreases n - i,
    {
        r.push(v[i]);
        i = i + 1;
        proof {
            assert(r@ =~= v@.subrange(0, i as int));
        }
    }
    proof {
        assert(r@ =~= v@);
    }
    r
}

/// Character-by-character equality of two vectors.
pub fn chars_eq(a: &Vec<char>, b: &Vec<char>) -> (r: bool)
    ensures
        r == (a@ == b@),
{
    if a.len() != b.len() {
        return false;
    }
    let n = a.len();
    let mut i: usize = 0;
    while i < n
        invariant
            n == a@.len(),
            n == b@.len(),
            i <= n,
            forall|k: int| 0 <= k < i ==> a@[k] == b@[k],
        decreases n - i,
    {
        if a[i] != b[i] {
            return false;
        }
        i = i + 1;
    }
    proof {
        assert(a@ =~= b@);
    }
    true
}

/// Index of the first character at or after `i` that is not whitespace
/// (or the length of the sequence if there is none).
pub open spec fn lead_from(s: Seq<char>, i: int) -> int
    decreases s.len() - i,
{
    if 0 <= i < s.len() && is_space_char(s[i]) {
        lead_from(s, i + 1)
    } else {
        i
    }
}

/// Index just past the last character before `j` that is not whitespace
/// (or 0 if there is none).
pub open spec fn trail_from(s: Seq<char>, j: int) -> int
    decreases j,
{
    if 0 < j <= s.len() && is_space_char(s[j - 1]) {
        trail_from(s, j - 1)
    } else {
        j
    }
}

/// The sequence with leading and trailing whitespace removed.
pub open spec fn trimmed_view(s: Seq<char>) -> Seq<char> {
    let a = lead_from(s, 0);
    let b = trail_from(s, s.len() as int);
    if a <= b {
        s.subrange(a, b)
    } else {
        Seq::empty()
    }
}

/// Number of characters that remain when leading and trailing whitespace
/// is removed.
pub fn trimmed_len(v: &Vec<char>) -> (r: usize)
    ensures
        r == trimmed_view(v@).len(),
{
    let n = v.len();
    let mut a: usize = 0;
    while a < n && is_space(v[a])
        invariant
            n == v@.len(),
            0 <= a <= n,
            lead_from(v@, 0) == lead_from(v@, a as int),
        decreases n - a,
    {
        a = a + 1;
    }
    let mut b: usize = n;
    while b > 0 && is_space(v[b - 1])
        invariant
            n == v@.len(),
            0 <= b <= n,
            trail_from(v@, n as int) == trail_from(v@, b as int),
        decreases b,
    {
        b = b - 1;
    }
    if a <= b {
        b - a
    } else {
        0
    }
}

/// The decimal digit character for a value between 0 and 9.
pub open spec fn dec_digit(d: int) -> char {
    ((48 + d) as u8) as char
}

/// Decimal rendering of a natural number, most significant digit first.
pub open spec fn dec_str(n: nat) -> Seq<char>
    decreases n,
{
    if n < 10 {
        seq![dec_digit(n as int)]
    } else {
        dec_str(n / 10) + seq![dec_digit((n % 10) as int)]
    }
}

/// Appends the decimal rendering of `n` to `out`.
pub fn push_dec(n: u64, out: &mut Vec<char>)
    ensures
        final(out)@ == old(out)@ + dec_str(n as nat),
    decreases n,
{
    let d = ((48u8 + (n % 10) as u8)) as char;
    if n < 10 {
        out.push(d);
        proof {
            assert(out@ =~= old(out)@ + dec_str(n as nat));
        }
    } else {
        push_dec(n / 10, out);
        out.push(d);
        proof {
            assert(out@ =~= old(out)@ + dec_str(n as nat));
        }
    }
}

/// A path separator: forward or backward slash.
pub open spec fn is_sep_char(c: char) -> bool {
    c == '/' || c == '\\'
}

/// Index of the first character of the path's final component, scanning
/// left from `j` past non-separator characters.
pub open spec fn base_start(s: Seq<char>, j: int) -> int
    decreases j,
{
    if 0 < j <= s.len() && !is_sep_char(s[j - 1]) {
        base_start(s, j - 1)
    } else {
        j
    }
}

/// The base name of a path: everything after the last path separator.
/// An empty final component (an empty path, or one that ends in a
/// separator) falls back to a fixed placeholder name.
pub open spec fn base_name_view(s: Seq<char>) -> Seq<char> {
    let k = base_start(s, s.len() as int);
    if k == s.len() {
        "unknown_file"@
    } else {
        s.subrange(k, s.len() as int)
    }
}

pub fn base_name(path: &Vec<char>) -> (r: Vec<char>)
    ensures
        r@ == base_name_view(path@),
{
    let n = path.len();
    let mut k: usize = n;
    while k > 0 && !(path[k - 1] == '/' || path[k - 1] == '\\')
        invariant
            n == path@.len(),
            0 <= k <= n,
            base_start(path@, n as int) == base_start(path@, k as int),
        decreases k,
    {
        k = k - 1;
    }
    if k == n {
        let fallback = chars_of("unknown_file");
        fallback
    } else {
        let mut r: Vec<char> = Vec::new();
        let mut i: usize = k;
        while i < n
            invariant
                n == path@.len(),
                k <= i <= n,
                r@ == path@.subrange(k as int, i as int),
            decreases n - i,
        {
            r.push(path[i]);
            i = i + 1;
            proof {
                assert(r@ =~= path@.subrange(k as int, i as int));
            }
        }
        r
    }
}

} // verus!
