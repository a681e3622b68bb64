//! Small text-building blocks: appending a character to a `String` and
//! rendering integers in decimal.  Everything downstream that produces JSON
//! or error messages builds on these.

use vstd::prelude::*;
use vstd::string::{StrSliceExecFns, StringExecFns};

verus! {

/// Relies on `String::push` from std: it appends exactly the one character.
#[verifier::external_body]
pub fn push_char(s: &mut String, c: char)
    ensures
        final(s)@ == old(s)@.push(c),
{
    s.push(c);
}

/// The digit character for a value below ten.
pub open spec fn dec_digit(d: nat) -> char {
    if d == 0 {
        '0'
    } else if d == 1 {
        '1'
    } else if d == 2 {
        '2'
    } else if d == 3 {
        '3'
    } else if d == 4 {
        '4'
    } else if d == 5 {
        '5'
    } else if d == 6 {
        '6'
    } else if d == 7 {
        '7'
    } else if d == 8 {
        '8'
    } else {
        '9'
    }
}

/// The decimal rendering of a natural number, most significant digit first.
pub open spec fn dec_str(n: nat) -> Seq<char>
    decreases n,
{
    if n < 10 {
        seq![dec_digit(n)]
    } else {
        dec_str(n / 10).push(dec_digit(n % 10))
    }
}

/// The decimal rendering of a signed value: a minus sign before the
/// magnitude when it is negative.
pub open spec fn dec_str_signed(v: int) -> Seq<char> {
    if v >= 0 {
        dec_str(v as nat)
    } else {
        seq!['-'] + dec_str((-v) as nat)
    }
}

fn dec_digit_char(d: u64) -> (c: char)
    requires
        d < 10,
    ensures
        c == dec_digit(d as nat),
{
    if d == 0 {
        '0'
    } else if d == 1 {
        '1'
    } else if d == 2 {
        '2'
    } else if d == 3 {
        '3'
    } else if d == 4 {
        '4'
    } else if d == 5 {
        '5'
    } else if d == 6 {
        '6'
    } else if d == 7 {
        '7'
    } else if d == 8 {
        '8'
    } else {
        '9'
    }
}

/// Appends the decimal rendering of `n` to `s`.
pub fn push_u64_dec(s: &mut String, n: u64)
    ensures
        final(s)@ == old(s)@ + dec_str(n as nat),
    decreases n,
{
    if n >= 10 {
        push_u64_dec(s, n / 10);
    }
    let c = dec_digit_char(n % 10);
    push_char(s, c);
    assert(final(s)@ =~= old(s)@ + dec_str(n as nat));
}

/// Appends the decimal rendering of `v` to `s`, minus sign included.
pub fn push_i64_dec(s: &mut String, v: i64)
    ensures
        final(s)@ == old(s)@ + dec_str_signed(v as int),
{
    if v >= 0 {
        push_u64_dec(s, v as u64);
    } else {
        push_char(s, '-');
        let m: u64 = ((-(v + 1)) as u64) + 1;
        assert(m == -(v as int));
        push_u64_dec(s, m);
        assert(final(s)@ =~= old(s)@ + dec_str_signed(v as int));
    }
}

/// The decimal rendering of a `u64`, as a fresh string.
pub fn u64_to_dec(n: u64) -> (s: String)
    ensures
        s@ == dec_str(n as nat),
{
    let mut s = String::new();
    push_u64_dec(&mut s, n);
    assert(s@ =~= dec_str(n as nat));
    s
}

/// Whether two string slices read the same.
pub fn str_eq(a: &str, b: &str) -> (r: bool)
    ensures
        r == (a@ == b@),
{
    let na = a.unicode_len();
    let nb = b.unicode_len();
    if na != nb {
        return false;
    }
    let mut i: usize = 0;
    while i < na
        invariant
            i <= na,
            na == a@.len(),
            na == b@.len(),
            forall|j: int| 0 <= j < i ==> a@[j] == b@[j],
        decreases na - i,
    {
        if a.get_char(i) != b.get_char(i) {
            return false;
        }
        i = i + 1;
    }
    proof {
        assert(a@ =~= b@);
    }
    true
}

/// Appends all of `piece` to `s`.
pub fn push_str(s: &mut String, piece: &str)
    ensures
        final(s)@ == old(s)@ + piece@,
{
    s.append(piece);
}

} // verus!
