//! Characters and digit strings: the ground layer for every textual
//! encoder and parser in the crate.
//!
//! Strings are reasoned about through their views (`Seq<char>`); the
//! executable code moves between `String` and `Vec<char>` and prints
//! numbers in decimal, hexadecimal and base 36.

use vstd::prelude::*;
use vstd::string::StrSliceExecFns;

verus! {

/// The character for one digit value below the given base
/// (`0..=9` then `a..=z`).
pub open spec fn digit_char(d: nat) -> char
    recommends
        d < 36,
{
    if d < 10 {
        ((48 + d) as u8) as char
    } else {
        ((87 + d) as u8) as char
    }
}

/// The digits of `n` in the given base, most significant first,
/// with a single `'0'` for zero.
pub open spec fn radix_digits(n: nat, base: nat) -> Seq<char>
    recommends
        2 <= base <= 36,
    decreases n,
    via radix_digits_decreases
{
    if base < 2 || n < base {
        seq![digit_char(n % base)]
    } else {
        radix_digits(n / base, base) + seq![digit_char(n % base)]
    }
}

#[via_fn]
proof fn radix_digits_decreases(n: nat, base: nat) {
    if !(base < 2 || n < base) {
        assert(n / base < n) by (nonlinear_arith)
            requires
                base >= 2,
                n >= base,
        ;
    }
}

/// The decimal digits of `n`, most significant first.
pub open spec fn dec_digits(n: nat) -> Seq<char> {
    radix_digits(n, 10)
}

/// The decimal form of a signed value: a minus sign before the
/// digits of the magnitude.
pub open spec fn dec_signed(n: int) -> Seq<char> {
    if n < 0 {
        seq!['-'] + dec_digits((-n) as nat)
    } else {
        dec_digits(n as nat)
    }
}

/// Builds a `String` from a vector of characters.
///
/// Relies on `String`'s `FromIterator<char>` implementation:
/// collecting an iterator of characters yields the string of exactly
/// those characters in order.
#[verifier::external_body]
pub fn chars_to_string(v: &Vec<char>) -> (r: String)
    ensures
        r@ == v@,
{
    v.iter().collect()
}

/// Copies the characters of a string slice into a vector.
pub fn string_to_chars(s: &str) -> (r: Vec<char>)
    ensures
        r@ == s@,
{
    let n = s.unicode_len();
    let mut v: Vec<char> = Vec::new();
    let mut i: usize = 0;
    while i < n
        invariant
            i <= n,
            n == s@.len(),
            v@ == s@.subrange(0, i as int),
        decreases n - i,
    {
        v.push(s.get_char(i));
        assert(v@ =~= s@.subrange(0, i + 1 as int));
        i += 1;
    }
    assert(v@ =~= s@);
    v
}

/// Appends every character of `s` to `out`, unchanged.
pub fn push_str_chars(out: &mut Vec<char>, s: &str)
    ensures
        final(out)@ == old(out)@ + s@,
{
    let n = s.unicode_len();
    let mut i: usize = 0;
    while i < n
        invariant
            i <= n,
            n == s@.len(),
            out@ == old(out)@ + s@.subrange(0, i as int),
        decreases n - i,
    {
        out.push(s.get_char(i));
        assert(out@ =~= old(out)@ + s@.subrange(0, i + 1 as int));
        i += 1;
    }
    assert(s@.subrange(0, n as int) =~= s@);
}

/// Whether the characters in `v` spell exactly `lit`.
pub fn chars_eq_str(v: &Vec<char>, lit: &str) -> (r: bool)
    ensures
        r == (v@ == lit@),
{
    let n = lit.unicode_len();
    if v.len() != n {
        assert(v@ != lit@) by {
            if v@ == lit@ {
                assert(v@.len() == lit@.len());
            }
        }
        return false;
    }
    let mut k: usize = 0;
    while k < n
        invariant
            k <= n,
            n == lit@.len(),
            n == v@.len(),
            forall|t: int| 0 <= t < k ==> v@[t] == lit@[t],
        decreases n - k,
    {
        if v[k] != lit.get_char(k) {
            return false;
        }
        k += 1;
    }
    assert(v@ =~= lit@);
    true
}

/// Appends the digits of `n` in the given base to `out`.
pub fn push_radix(out: &mut Vec<char>, n: u64, base: u64)
    requires
        2 <= base <= 36,
    ensures
        final(out)@ == old(out)@ + radix_digits(n as nat, base as nat),
    decreases n,
{
    let ghost pre = out@;
    if n >= base {
        proof {
            assert(n / base < n) by (nonlinear_arith)
                requires
                    base >= 2,
                    n >= base,
            ;
        }
        push_radix(out, n / base, base);
    }
    let d = n % base;
    let c: char = if d < 10 {
        (48 + d as u8) as char
    } else {
        (87 + d as u8) as char
    };
    assert(c == digit_char((n % base) as nat));
    out.push(c);
    assert(out@ =~= pre + radix_digits(n as nat, base as nat));
}

/// Appends the decimal digits of `n` to `out`.
pub fn push_u64(out: &mut Vec<char>, n: u64)
    ensures
        final(out)@ == old(out)@ + dec_digits(n as nat),
{
    push_radix(out, n, 10);
}

/// Appends the decimal form of a signed value to `out`.
pub fn push_i64(out: &mut Vec<char>, n: i64)
    ensures
        final(out)@ == old(out)@ + dec_signed(n as int),
{
    let ghost pre = out@;
    if n < 0 {
        out.push('-');
        let magnitude: u64 = if n == i64::MIN {
            9223372036854775808u64
        } else {
            (-n) as u64
        };
        assert(magnitude as int == -(n as int));
        push_u64(out, magnitude);
        assert(out@ =~= pre + dec_signed(n as int));
    } else {
        push_u64(out, n as u64);
    }
}

/// Formats `n` in base 36, lower case, for compact identifiers.
pub fn format_base36(n: u64) -> (r: String)
    ensures
        r@ == radix_digits(n as nat, 36),
{
    let mut v: Vec<char> = Vec::new();
    push_radix(&mut v, n, 36);
    chars_to_string(&v)
}

/// Formats `n` in hexadecimal, lower case.
pub fn format_hex(n: u64) -> (r: String)
    ensures
        r@ == radix_digits(n as nat, 16),
{
    let mut v: Vec<char> = Vec::new();
    push_radix(&mut v, n, 16);
    chars_to_string(&v)
}

} // verus!
