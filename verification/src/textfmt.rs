//! Verified text building blocks: decimal rendering of numbers, fixed-point
//! rendering of pixel values, character-exact string comparison, and label
//! truncation.

use vstd::prelude::*;
use vstd::string::StrSliceExecFns;
use vstd::string::StringExecFns;

verus! {

/// Relies on alloc's `String::push`: appends exactly the given character to
/// the end of the string.
pub assume_specification[ String::push ](s: &mut String, c: char)
    ensures
        final(s)@ == old(s)@.push(c),
;

pub open spec fn digit_char(d: int) -> char {
    if d == 0 { '0' }
    else if d == 1 { '1' }
    else if d == 2 { '2' }
    else if d == 3 { '3' }
    else if d == 4 { '4' }
    else if d == 5 { '5' }
    else if d == 6 { '6' }
    else if d == 7 { '7' }
    else if d == 8 { '8' }
    else { '9' }
}

/// The decimal digits of a non-negative number, most significant first.
pub open spec fn spec_dec(n: int) -> Seq<char>
    decreases n,
{
    if n < 10 {
        seq![digit_char(n)]
    } else {
        spec_dec(n / 10).push(digit_char(n % 10))
    }
}

fn digit_char_exec(d: u64) -> (c: char)
    requires
        d < 10,
    ensures
        c == digit_char(d as int),
{
    if d == 0 { '0' }
    else if d == 1 { '1' }
    else if d == 2 { '2' }
    else if d == 3 { '3' }
    else if d == 4 { '4' }
    else if d == 5 { '5' }
    else if d == 6 { '6' }
    else if d == 7 { '7' }
    else if d == 8 { '8' }
    else { '9' }
}

/// Renders a number in decimal.
pub fn u64_to_string(n: u64) -> (r: String)
    ensures
        r@ == spec_dec(n as int),
    decreases n,
{
    if n < 10 {
        let mut s = String::new();
        s.push(digit_char_exec(n));
        proof {
            assert(s@ =~= seq![digit_char(n as int)]);
        }
        s
    } else {
        let mut s = u64_to_string(n / 10);
        s.push(digit_char_exec(n % 10));
        s
    }
}

/// The decimal rendering of a signed number.
pub open spec fn spec_dec_signed(n: int) -> Seq<char> {
    if n < 0 {
        seq!['-'] + spec_dec(-n)
    } else {
        spec_dec(n)
    }
}

pub fn i64_to_string(n: i64) -> (r: String)
    requires
        -1_000_000_000_000_000_000 < n,
    ensures
        r@ == spec_dec_signed(n as int),
{
    if n >= 0 {
        u64_to_string(n as u64)
    } else {
        let mut s = String::new();
        s.push('-');
        let digits = u64_to_string((-n) as u64);
        s.append(digits.as_str());
        proof {
            assert(s@ =~= spec_dec_signed(n as int));
        }
        s
    }
}

/// A non-negative fixed-point value carried in thousandths, rendered with
/// exactly three digits after the point.
pub open spec fn spec_fixed3(v: int) -> Seq<char> {
    spec_dec(v / 1000) + seq!['.'] + seq![
        digit_char((v / 100) % 10),
        digit_char((v / 10) % 10),
        digit_char(v % 10),
    ]
}

pub fn format_fixed3(v: i64) -> (r: String)
    requires
        0 <= v,
    ensures
        r@ == spec_fixed3(v as int),
{
    let u = v as u64;
    let mut s = u64_to_string(u / 1000);
    s.push('.');
    s.push(digit_char_exec((u / 100) % 10));
    s.push(digit_char_exec((u / 10) % 10));
    s.push(digit_char_exec(u % 10));
    proof {
        assert(s@ =~= spec_fixed3(v as int));
    }
    s
}

/// Character-exact comparison of two string slices.
pub fn str_eq(a: &str, b: &str) -> (r: bool)
    ensures
        r == (a@ == b@),
{
    let na = a.unicode_len();
    let nb = b.unicode_len();
    if na != nb {
        proof {
            assert(a@ != b@);
        }
        return false;
    }
    let mut i: usize = 0;
    while i < na
        invariant
            na == a@.len(),
            na == b@.len(),
            0 <= i <= na,
            forall|j: int| 0 <= j < i ==> a@[j] == b@[j],
        decreases na - i,
    {
        if a.get_char(i) != b.get_char(i) {
            proof {
                assert(a@[i as int] != b@[i as int]);
            }
            return false;
        }
        i += 1;
    }
    proof {
        assert(a@ =~= b@);
    }
    true
}

/// Truncation of over-long labels: a text longer than `threshold` characters
/// is cut to its first `keep` characters plus a trailing ellipsis.
pub open spec fn spec_truncate(s: Seq<char>, threshold: int, keep: int) -> Seq<char> {
    if s.len() > threshold {
        s.subrange(0, keep) + seq!['.', '.', '.']
    } else {
        s
    }
}

pub fn truncate_with_ellipsis(s: &str, threshold: usize, keep: usize) -> (r: String)
    requires
        keep <= threshold,
    ensures
        r@ == spec_truncate(s@, threshold as int, keep as int),
{
    let n = s.unicode_len();
    if n > threshold {
        let head = s.substring_char(0, keep);
        let mut out = String::from_str(head);
        out.push('.');
        out.push('.');
        out.push('.');
        proof {
            assert(out@ =~= spec_truncate(s@, threshold as int, keep as int));
        }
        out
    } else {
        String::from_str(s)
    }
}

} // verus!
