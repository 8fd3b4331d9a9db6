//! The textual layer of the line-delimited JSON protocol: string
//! escaping, quoted strings, decimal numbers, literals and
//! whitespace, each with a printer, a parser, and the proof that the
//! parser inverts the printer.
//!
//! Escaping covers the two structurally dangerous characters (`"`
//! and `\`) and the three whitespace controls (`\n`, `\r`, `\t`) that
//! would break a one-object-per-line protocol; every other character
//! stands for itself.

use vstd::prelude::*;
use vstd::string::StrSliceExecFns;

use crate::strconv::{dec_digits, dec_signed, digit_char};

verus! {

// ---------------------------------------------------------------------------
// String escaping
// ---------------------------------------------------------------------------

/// The escape sequence for one character.
pub open spec fn esc_char(c: char) -> Seq<char> {
    if c == '"' {
        seq!['\\', '"']
    } else if c == '\\' {
        seq!['\\', '\\']
    } else if c == '\n' {
        seq!['\\', 'n']
    } else if c == '\r' {
        seq!['\\', 'r']
    } else if c == '\t' {
        seq!['\\', 't']
    } else {
        seq![c]
    }
}

/// A whole string body, escaped.
pub open spec fn escape_str(s: Seq<char>) -> Seq<char>
    decreases s.len(),
{
    if s.len() == 0 {
        Seq::empty()
    } else {
        esc_char(s[0]) + escape_str(s.subrange(1, s.len() as int))
    }
}

/// An escaped string body between double quotes.
pub open spec fn quoted(s: Seq<char>) -> Seq<char> {
    seq!['"'] + escape_str(s) + seq!['"']
}

/// The character named by an escape sequence `\x`, if `x` is one the
/// printer emits.
pub open spec fn unesc_char(x: char) -> Option<char> {
    if x == '"' {
        Some('"')
    } else if x == '\\' {
        Some('\\')
    } else if x == 'n' {
        Some('\n')
    } else if x == 'r' {
        Some('\r')
    } else if x == 't' {
        Some('\t')
    } else if x == '/' {
        Some('/')
    } else {
        None
    }
}

proof fn lemma_escape_str_snoc(s: Seq<char>, c: char)
    ensures
        escape_str(s.push(c)) == escape_str(s) + esc_char(c),
    decreases s.len(),
{
    if s.len() == 0 {
        assert(s.push(c)[0] == c);
        assert(s.push(c).subrange(1, 1) =~= Seq::<char>::empty());
        assert(escape_str(s.push(c)) == esc_char(c) + escape_str(Seq::<char>::empty()));
        assert(esc_char(c) + Seq::<char>::empty() =~= esc_char(c));
        assert(escape_str(s) + esc_char(c) =~= esc_char(c));
    } else {
        let tail = s.subrange(1, s.len() as int);
        assert(s.push(c).subrange(1, s.len() + 1 as int) =~= tail.push(c));
        lemma_escape_str_snoc(tail, c);
        assert(s.push(c)[0] == s[0]);
        assert(escape_str(s.push(c)) == esc_char(s[0]) + (escape_str(tail) + esc_char(c)));
        assert(escape_str(s) + esc_char(c) == (esc_char(s[0]) + escape_str(tail)) + esc_char(c));
        assert(esc_char(s[0]) + (escape_str(tail) + esc_char(c)) =~= (esc_char(s[0]) + escape_str(
            tail,
        )) + esc_char(c));
    }
}

/// Appends the escaped form of `s` to `out`.
pub fn push_escaped(out: &mut Vec<char>, s: &str)
    ensures
        final(out)@ == old(out)@ + escape_str(s@),
{
    let n = s.unicode_len();
    let mut i: usize = 0;
    while i < n
        invariant
            i <= n,
            n == s@.len(),
            out@ == old(out)@ + escape_str(s@.subrange(0, i as int)),
        decreases n - i,
    {
        let c = s.get_char(i);
        let ghost prefix = s@.subrange(0, i as int);
        if c == '"' {
            out.push('\\');
            out.push('"');
        } else if c == '\\' {
            out.push('\\');
            out.push('\\');
        } else if c == '\n' {
            out.push('\\');
            out.push('n');
        } else if c == '\r' {
            out.push('\\');
            out.push('r');
        } else if c == '\t' {
            out.push('\\');
            out.push('t');
        } else {
            out.push(c);
        }
        proof {
            lemma_escape_str_snoc(prefix, c);
            assert(s@.subrange(0, i + 1 as int) =~= prefix.push(c));
            assert(out@ =~= old(out)@ + escape_str(s@.subrange(0, i + 1 as int)));
        }
        i += 1;
    }
    proof {
        assert(s@.subrange(0, n as int) =~= s@);
    }
}

/// Appends `"` + escaped body + `"` to `out`.
pub fn push_quoted(out: &mut Vec<char>, s: &str)
    ensures
        final(out)@ == old(out)@ + quoted(s@),
{
    out.push('"');
    push_escaped(out, s);
    out.push('"');
    assert(out@ =~= old(out)@ + quoted(s@));
}

/// The escaped form of a string, as the protocol embeds it between
/// quotes: `\` and `"` gain a backslash, and newline, carriage
/// return and tab become `\n`, `\r`, `\t`.
pub fn escape_json_string(s: &str) -> (r: String)
    ensures
        r@ == escape_str(s@),
{
    let mut out: Vec<char> = Vec::new();
    push_escaped(&mut out, s);
    crate::strconv::chars_to_string(&out)
}

// ---------------------------------------------------------------------------
// Parsing: string bodies
// ---------------------------------------------------------------------------

/// Parses an escaped string body starting at `i`, up to and past the
/// closing quote; yields the unescaped content and the next index.
pub open spec fn parse_str_body(s: Seq<char>, i: int) -> Option<(Seq<char>, int)>
    decreases s.len() - i,
{
    if i < 0 || i >= s.len() {
        None
    } else if s[i] == '"' {
        Some((Seq::empty(), i + 1))
    } else if s[i] == '\\' {
        if i + 1 >= s.len() {
            None
        } else {
            match unesc_char(s[i + 1]) {
                None => None,
                Some(c) => match parse_str_body(s, i + 2) {
                    None => None,
                    Some((v, j)) => Some((seq![c] + v, j)),
                },
            }
        }
    } else {
        match parse_str_body(s, i + 1) {
            None => None,
            Some((v, j)) => Some((seq![s[i]] + v, j)),
        }
    }
}

/// A successful string-body parse always advances and stays inside
/// the input.
pub proof fn lemma_parse_str_body_bounds(s: Seq<char>, i: int)
    requires
        parse_str_body(s, i) is Some,
    ensures
        i < parse_str_body(s, i).unwrap().1 <= s.len(),
    decreases s.len() - i,
{
    if s[i] == '"' {
    } else if s[i] == '\\' {
        lemma_parse_str_body_bounds(s, i + 2);
    } else {
        lemma_parse_str_body_bounds(s, i + 1);
    }
}

/// Executable mirror of [`parse_str_body`].
pub fn scan_string(s: &Vec<char>, i: usize) -> (r: Option<(Vec<char>, usize)>)
    ensures
        match r {
            Some(p) => parse_str_body(s@, i as int) == Some((p.0@, p.1 as int)),
            None => parse_str_body(s@, i as int) is None,
        },
    decreases s.len() - i,
{
    if i >= s.len() {
        return None;
    }
    let c = s[i];
    if c == '"' {
        return Some((Vec::new(), i + 1));
    }
    if c == '\\' {
        if i + 1 >= s.len() {
            return None;
        }
        let x = s[i + 1];
        let d: Option<char> = if x == '"' {
            Some('"')
        } else if x == '\\' {
            Some('\\')
        } else if x == 'n' {
            Some('\n')
        } else if x == 'r' {
            Some('\r')
        } else if x == 't' {
            Some('\t')
        } else if x == '/' {
            Some('/')
        } else {
            None
        };
        match d {
            None => None,
            Some(dc) => match scan_string(s, i + 2) {
                None => None,
                Some((mut v, j)) => {
                    v.insert(0, dc);
                    assert(v@ =~= seq![dc] + v@.subrange(1, v@.len() as int));
                    Some((v, j))
                },
            },
        }
    } else {
        match scan_string(s, i + 1) {
            None => None,
            Some((mut v, j)) => {
                v.insert(0, c);
                assert(v@ =~= seq![c] + v@.subrange(1, v@.len() as int));
                Some((v, j))
            },
        }
    }
}

/// The parser inverts the escaper: wherever `s` holds the escaped
/// form of `v` followed by a closing quote, parsing from there
/// recovers `v` exactly and stops just past the quote.
pub proof fn lemma_parse_escaped(s: Seq<char>, v: Seq<char>, i: int)
    requires
        0 <= i,
        i + escape_str(v).len() < s.len(),
        s.subrange(i, i + escape_str(v).len()) == escape_str(v),
        s[i + escape_str(v).len()] == '"',
    ensures
        parse_str_body(s, i) == Some((v, i + escape_str(v).len() + 1)),
    decreases v.len(),
{
    if v.len() == 0 {
        assert(s[i] == '"');
    } else {
        let c = v[0];
        let rest = v.subrange(1, v.len() as int);
        let e = esc_char(c);
        assert(escape_str(v) == e + escape_str(rest));
        let elen = e.len();
        let rlen = escape_str(rest).len();
        assert(escape_str(v).len() == elen + rlen);
        // The escaped tail of the string matches escape_str(rest).
        assert(s.subrange(i + elen, i + elen + rlen) =~= escape_str(rest)) by {
            assert forall|k: int| 0 <= k < rlen implies s.subrange(
                i + elen,
                i + elen + rlen,
            )[k] == escape_str(rest)[k] by {
                assert(s.subrange(i, i + elen + rlen)[elen + k] == escape_str(v)[elen + k]);
            }
        }
        lemma_parse_escaped(s, rest, i + elen);
        assert(s[i] == escape_str(v)[0]);
        if c == '"' || c == '\\' || c == '\n' || c == '\r' || c == '\t' {
            assert(e.len() == 2);
            assert(s[i] == '\\');
            assert(s[i + 1] == escape_str(v)[1]);
            assert(s[i + 1] == e[1]);
            assert(unesc_char(e[1]) == Some(c));
            assert(parse_str_body(s, i) == Some((seq![c] + rest, i + escape_str(v).len() + 1)));
            assert(seq![c] + rest =~= v);
        } else {
            assert(e.len() == 1);
            assert(s[i] == c);
            assert(parse_str_body(s, i) == Some((seq![s[i]] + rest, i + escape_str(v).len() + 1)));
            assert(seq![s[i]] + rest =~= v);
        }
    }
}

// ---------------------------------------------------------------------------
// Parsing: decimal numbers
// ---------------------------------------------------------------------------

/// Whether `c` is a decimal digit.
pub open spec fn is_dec_digit(c: char) -> bool {
    48 <= c as int && c as int <= 57
}

/// The value of a decimal digit character.
pub open spec fn digit_val(c: char) -> nat
    recommends
        is_dec_digit(c),
{
    (c as int - 48) as nat
}

/// The first index at or after `i` that does not hold a digit.
pub open spec fn num_end(s: Seq<char>, i: int) -> int
    decreases s.len() - i,
{
    if 0 <= i && i < s.len() && is_dec_digit(s[i]) {
        num_end(s, i + 1)
    } else {
        i
    }
}

/// The value of the digit run `s[i..j]`.
pub open spec fn digits_val(s: Seq<char>, i: int, j: int) -> nat
    decreases j - i,
{
    if i >= j {
        0
    } else {
        digits_val(s, i, j - 1) * 10 + digit_val(s[j - 1])
    }
}

/// Parses an unsigned decimal number at `i`: its value and the index
/// just past its digits. Fails when no digit stands at `i`.
pub open spec fn parse_nat(s: Seq<char>, i: int) -> Option<(nat, int)> {
    if 0 <= i && i < s.len() && is_dec_digit(s[i]) {
        Some((digits_val(s, i, num_end(s, i)), num_end(s, i)))
    } else {
        None
    }
}

proof fn lemma_num_end_bounds(s: Seq<char>, i: int)
    requires
        0 <= i <= s.len(),
    ensures
        i <= num_end(s, i) <= s.len(),
        forall|k: int| i <= k < num_end(s, i) ==> is_dec_digit(s[k]),
        num_end(s, i) == s.len() || !is_dec_digit(s[num_end(s, i)]),
    decreases s.len() - i,
{
    if i < s.len() && is_dec_digit(s[i]) {
        lemma_num_end_bounds(s, i + 1);
    }
}

proof fn lemma_num_end_exact(s: Seq<char>, i: int, j: int)
    requires
        0 <= i <= j <= s.len(),
        forall|k: int| i <= k < j ==> is_dec_digit(s[k]),
        j == s.len() || !is_dec_digit(s[j]),
    ensures
        num_end(s, i) == j,
    decreases j - i,
{
    if i < j {
        lemma_num_end_exact(s, i + 1, j);
    }
}

pub proof fn lemma_dec_digits_are_digits(n: nat)
    ensures
        forall|k: int| 0 <= k < dec_digits(n).len() ==> is_dec_digit(#[trigger] dec_digits(n)[k]),
        dec_digits(n).len() >= 1,
    decreases n,
{
    if n >= 10 {
        lemma_dec_digits_are_digits(n / 10);
    }
    assert(is_dec_digit(digit_char(n % 10)));
}

proof fn lemma_digits_val_of_printed(s: Seq<char>, n: nat, i: int)
    requires
        0 <= i,
        i + dec_digits(n).len() <= s.len(),
        s.subrange(i, i + dec_digits(n).len()) == dec_digits(n),
    ensures
        digits_val(s, i, i + dec_digits(n).len()) == n,
    decreases n,
{
    let len = dec_digits(n).len();
    if n < 10 {
        assert(dec_digits(n) == seq![digit_char(n % 10)]);
        assert(s[i] == dec_digits(n)[0]);
        assert(digit_val(digit_char(n)) == n);
        assert(digits_val(s, i, i + 1) == digits_val(s, i, i) * 10 + digit_val(s[i]));
    } else {
        let hi = dec_digits(n / 10);
        assert(dec_digits(n) == hi + seq![digit_char(n % 10)]);
        assert(s.subrange(i, i + hi.len() as int) =~= hi) by {
            assert forall|k: int| 0 <= k < hi.len() implies s.subrange(i, i + hi.len() as int)[k]
                == hi[k] by {
                assert(s.subrange(i, i + len as int)[k] == dec_digits(n)[k]);
            }
        }
        lemma_digits_val_of_printed(s, n / 10, i);
        assert(s[i + len - 1] == dec_digits(n)[len - 1]);
        assert(s[i + len - 1] == digit_char(n % 10));
        assert(digits_val(s, i, i + len as int) == digits_val(s, i, i + len - 1) * 10 + digit_val(
            s[i + len - 1],
        ));
        assert(digits_val(s, i, i + len - 1) == n / 10);
        assert(digit_val(digit_char(n % 10)) == n % 10);
        assert(n / 10 * 10 + n % 10 == n);
    }
}

/// The number parser inverts the decimal printer: wherever `s` holds
/// the digits of `n` not followed by a further digit, parsing from
/// there recovers `n`.
pub proof fn lemma_parse_dec(s: Seq<char>, n: nat, i: int)
    requires
        0 <= i,
        i + dec_digits(n).len() <= s.len(),
        s.subrange(i, i + dec_digits(n).len()) == dec_digits(n),
        i + dec_digits(n).len() == s.len() || !is_dec_digit(s[i + dec_digits(n).len()]),
    ensures
        parse_nat(s, i) == Some((n, i + dec_digits(n).len())),
{
    let len = dec_digits(n).len();
    lemma_dec_digits_are_digits(n);
    assert forall|k: int| i <= k < i + len implies is_dec_digit(s[k]) by {
        assert(s.subrange(i, i + len as int)[k - i] == dec_digits(n)[k - i]);
    }
    assert(s[i] == dec_digits(n)[0]);
    lemma_num_end_exact(s, i, i + len as int);
    lemma_digits_val_of_printed(s, n, i);
}

/// Executable mirror of [`parse_nat`], within `u64` range. On a
/// digit run whose value does not fit in a `u64` it reports failure.
pub fn scan_u64(s: &Vec<char>, i: usize) -> (r: Option<(u64, usize)>)
    ensures
        match r {
            Some(p) => parse_nat(s@, i as int) == Some((p.0 as nat, p.1 as int)),
            None => parse_nat(s@, i as int) is None || parse_nat(s@, i as int).unwrap().0
                > u64::MAX,
        },
{
    if i >= s.len() {
        return None;
    }
    let c0 = s[i];
    if !('0' <= c0 && c0 <= '9') {
        return None;
    }
    proof {
        lemma_num_end_bounds(s@, i as int);
    }
    let ghost end = num_end(s@, i as int);
    let mut k: usize = i;
    let mut acc: u64 = 0;
    while k < s.len() && '0' <= s[k] && s[k] <= '9'
        invariant
            i <= k <= s.len(),
            0 <= end <= s@.len(),
            end == num_end(s@, i as int),
            k <= end,
            forall|t: int| i <= t < end ==> is_dec_digit(s@[t]),
            end == s@.len() || !is_dec_digit(s@[end as int]),
            acc == digits_val(s@, i as int, k as int),
        decreases s.len() - k,
    {
        let c = s[k];
        let d: u64 = (c as u32 - 48) as u64;
        assert(d == digit_val(s@[k as int]));
        assert(d <= 9);
        if acc > (u64::MAX - d) / 10 {
            // The full run's value exceeds u64: digit runs only grow.
            proof {
                assert(k < end) by {
                    assert(is_dec_digit(s@[k as int]));
                }
                assert(acc * 10 + d > u64::MAX) by (nonlinear_arith)
                    requires
                        acc > (u64::MAX - d) / 10,
                        d <= 9,
                ;
                assert(digits_val(s@, i as int, k + 1 as int) == acc * 10 + d);
                lemma_digits_val_monotone(s@, i as int, k + 1 as int, end);
            }
            return None;
        }
        assert(acc * 10 + d <= u64::MAX) by (nonlinear_arith)
            requires
                acc <= (u64::MAX - d) / 10,
                d <= 9,
        ;
        acc = acc * 10 + d;
        k += 1;
        assert(acc == digits_val(s@, i as int, k as int));
    }
    proof {
        lemma_num_end_exact(s@, i as int, k as int);
    }
    Some((acc, k))
}

proof fn lemma_digits_val_monotone(s: Seq<char>, i: int, j: int, j2: int)
    requires
        i <= j <= j2,
    ensures
        digits_val(s, i, j2) >= digits_val(s, i, j),
    decreases j2 - j,
{
    if j < j2 {
        lemma_digits_val_monotone(s, i, j, j2 - 1);
        assert(digits_val(s, i, j2) == digits_val(s, i, j2 - 1) * 10 + digit_val(s[j2 - 1]));
        assert(digits_val(s, i, j2 - 1) * 10 >= digits_val(s, i, j2 - 1)) by (nonlinear_arith);
    }
}

// ---------------------------------------------------------------------------
// Parsing: signed numbers
// ---------------------------------------------------------------------------

/// Parses an optionally negated decimal number at `i`.
pub open spec fn parse_int(s: Seq<char>, i: int) -> Option<(int, int)> {
    if 0 <= i && i < s.len() && s[i] == '-' {
        match parse_nat(s, i + 1) {
            None => None,
            Some((n, j)) => Some((-(n as int), j)),
        }
    } else {
        match parse_nat(s, i) {
            None => None,
            Some((n, j)) => Some((n as int, j)),
        }
    }
}

/// A successful signed-number parse ends inside the input.
pub proof fn lemma_parse_int_bounds(s: Seq<char>, i: int)
    requires
        0 <= i <= s.len(),
        parse_int(s, i) is Some,
    ensures
        parse_int(s, i).unwrap().1 <= s.len(),
{
    if i < s.len() && s[i] == '-' {
        lemma_num_end_bounds(s, i + 1);
    } else {
        lemma_num_end_bounds(s, i);
    }
}

/// Executable mirror of [`parse_int`], within `i64` range.
pub fn scan_i64(s: &Vec<char>, i: usize) -> (r: Option<(i64, usize)>)
    ensures
        match r {
            Some(p) => parse_int(s@, i as int) == Some((p.0 as int, p.1 as int)),
            None => parse_int(s@, i as int) is None || parse_int(s@, i as int).unwrap().0
                > i64::MAX || parse_int(s@, i as int).unwrap().0 < i64::MIN,
        },
{
    if i < s.len() && s[i] == '-' {
        match scan_u64(s, i + 1) {
            None => {
                proof {
                    if parse_nat(s@, i + 1 as int) is Some {
                        let n = parse_nat(s@, i + 1 as int).unwrap().0;
                        assert(n > u64::MAX);
                        assert(-(n as int) < i64::MIN);
                    }
                }
                None
            },
            Some((n, j)) => {
                if n <= 9223372036854775807u64 {
                    Some((-(n as i64), j))
                } else if n == 9223372036854775808u64 {
                    Some((i64::MIN, j))
                } else {
                    None
                }
            },
        }
    } else {
        match scan_u64(s, i) {
            None => None,
            Some((n, j)) => {
                if n <= 9223372036854775807u64 {
                    Some((n as i64, j))
                } else {
                    None
                }
            },
        }
    }
}

/// The signed parser inverts the signed printer.
pub proof fn lemma_parse_dec_signed(s: Seq<char>, n: int, i: int)
    requires
        0 <= i,
        -0x8000_0000_0000_0000 <= n <= 0xffff_ffff_ffff_ffff,
        i + dec_signed(n).len() <= s.len(),
        s.subrange(i, i + dec_signed(n).len()) == dec_signed(n),
        i + dec_signed(n).len() == s.len() || !is_dec_digit(s[i + dec_signed(n).len()]),
    ensures
        parse_int(s, i) == Some((n, i + dec_signed(n).len())),
{
    if n < 0 {
        let m = (-n) as nat;
        assert(dec_signed(n) == seq!['-'] + dec_digits(m));
        assert(s[i] == dec_signed(n)[0]);
        assert(s[i] == '-');
        let len = dec_digits(m).len();
        assert(s.subrange(i + 1, i + 1 + len as int) =~= dec_digits(m)) by {
            assert forall|k: int| 0 <= k < len implies s.subrange(i + 1, i + 1 + len as int)[k]
                == dec_digits(m)[k] by {
                assert(s.subrange(i, i + dec_signed(n).len() as int)[1 + k] == dec_signed(n)[1
                    + k]);
            }
        }
        lemma_parse_dec(s, m, i + 1);
    } else {
        assert(dec_signed(n) == dec_digits(n as nat));
        lemma_parse_dec(s, n as nat, i);
        lemma_dec_digits_are_digits(n as nat);
        assert(s[i] == dec_digits(n as nat)[0]);
        assert(is_dec_digit(s[i]));
        assert(s[i] != '-');
    }
}

// ---------------------------------------------------------------------------
// Literals and whitespace
// ---------------------------------------------------------------------------

/// Whether `s` holds exactly `lit` starting at `i`.
pub open spec fn match_at(s: Seq<char>, i: int, lit: Seq<char>) -> bool {
    &&& 0 <= i
    &&& i + lit.len() <= s.len()
    &&& s.subrange(i, i + lit.len()) == lit
}

/// Consumes the literal `lit` at `i`, or reports that it is absent.
pub fn expect_lit(s: &Vec<char>, i: usize, lit: &str) -> (r: Option<usize>)
    ensures
        match r {
            Some(j) => match_at(s@, i as int, lit@) && j == i + lit@.len(),
            None => !match_at(s@, i as int, lit@),
        },
{
    let n = lit.unicode_len();
    if n > s.len() || i > s.len() - n {
        assert(!match_at(s@, i as int, lit@));
        return None;
    }
    let mut k: usize = 0;
    while k < n
        invariant
            0 <= k <= n,
            n == lit@.len(),
            i + n <= s.len(),
            forall|t: int| 0 <= t < k ==> s@[i + t] == lit@[t],
        decreases n - k,
    {
        if s[i + k] != lit.get_char(k) {
            assert(s@.subrange(i as int, i + n as int)[k as int] != lit@[k as int]);
            return None;
        }
        k += 1;
    }
    assert(s@.subrange(i as int, i + n as int) =~= lit@);
    Some(i + n)
}

/// Whether `c` is JSON inter-token whitespace.
pub open spec fn is_ws(c: char) -> bool {
    c == ' ' || c == '\n' || c == '\t' || c == '\r'
}

/// The first index at or after `i` that holds no whitespace.
pub open spec fn ws_end(s: Seq<char>, i: int) -> int
    decreases s.len() - i,
{
    if 0 <= i && i < s.len() && is_ws(s[i]) {
        ws_end(s, i + 1)
    } else {
        i
    }
}

proof fn lemma_ws_end_bounds(s: Seq<char>, i: int)
    requires
        0 <= i <= s.len(),
    ensures
        i <= ws_end(s, i) <= s.len(),
    decreases s.len() - i,
{
    if i < s.len() && is_ws(s[i]) {
        lemma_ws_end_bounds(s, i + 1);
    }
}

/// Advances past whitespace.
pub fn skip_ws(s: &Vec<char>, i: usize) -> (j: usize)
    requires
        i <= s.len(),
    ensures
        j == ws_end(s@, i as int),
        i <= j <= s.len(),
{
    proof {
        lemma_ws_end_bounds(s@, i as int);
    }
    let mut k: usize = i;
    while k < s.len() && (s[k] == ' ' || s[k] == '\n' || s[k] == '\t' || s[k] == '\r')
        invariant
            i <= k <= s.len(),
            ws_end(s@, i as int) == ws_end(s@, k as int),
        decreases s.len() - k,
    {
        k += 1;
    }
    k
}

/// Consumes optional whitespace, then the literal `lit`.
pub open spec fn eat_spec(s: Seq<char>, i: int, lit: Seq<char>) -> Option<int> {
    let j = ws_end(s, i);
    if match_at(s, j, lit) {
        Some(j + lit.len() as int)
    } else {
        None
    }
}

/// Executable mirror of [`eat_spec`].
pub fn eat(s: &Vec<char>, i: usize, lit: &str) -> (r: Option<usize>)
    requires
        i <= s.len(),
    ensures
        match r {
            Some(j) => eat_spec(s@, i as int, lit@) == Some(j as int) && i <= j <= s.len(),
            None => eat_spec(s@, i as int, lit@) is None,
        },
{
    let j = skip_ws(s, i);
    match expect_lit(s, j, lit) {
        Some(k) => Some(k),
        None => None,
    }
}

/// Consumes optional whitespace, then a quoted string.
pub open spec fn parse_quoted_spec(s: Seq<char>, i: int) -> Option<(Seq<char>, int)> {
    let j = ws_end(s, i);
    if j < s.len() && s[j] == '"' {
        parse_str_body(s, j + 1)
    } else {
        None
    }
}

/// Executable mirror of [`parse_quoted_spec`].
pub fn scan_quoted(s: &Vec<char>, i: usize) -> (r: Option<(Vec<char>, usize)>)
    requires
        i <= s.len(),
    ensures
        match r {
            Some(p) => parse_quoted_spec(s@, i as int) == Some((p.0@, p.1 as int)) && i < p.1
                <= s.len(),
            None => parse_quoted_spec(s@, i as int) is None,
        },
{
    let j = skip_ws(s, i);
    if j < s.len() && s[j] == '"' {
        match scan_string(s, j + 1) {
            Some((v, k)) => {
                proof {
                    lemma_parse_str_body_bounds(s@, j + 1 as int);
                }
                Some((v, k))
            },
            None => None,
        }
    } else {
        None
    }
}

/// A window that stays inside the prefix of a concatenation reads
/// from the prefix.
pub proof fn lemma_subrange_of_prefix(s: Seq<char>, pre: Seq<char>, suf: Seq<char>, lo: int, hi: int)
    requires
        s == pre + suf,
        0 <= lo <= hi <= pre.len(),
    ensures
        s.subrange(lo, hi) == pre.subrange(lo, hi),
{
    assert(s.subrange(lo, hi) =~= pre.subrange(lo, hi)) by {
        assert forall|k: int| 0 <= k < hi - lo implies s.subrange(lo, hi)[k] == pre.subrange(
            lo,
            hi,
        )[k] by {
            assert(s[lo + k] == (pre + suf)[lo + k]);
        }
    }
}

/// The tail of a concatenation is its suffix.
pub proof fn lemma_suffix_of_concat(s: Seq<char>, pre: Seq<char>, suf: Seq<char>)
    requires
        s == pre + suf,
    ensures
        s.subrange(pre.len() as int, s.len() as int) == suf,
{
    assert(s.subrange(pre.len() as int, s.len() as int) =~= suf);
}

/// A window into a part of `s` equals the same window into the part.
pub proof fn lemma_sub_at(s: Seq<char>, off: int, part: Seq<char>, lo: int, hi: int)
    requires
        0 <= off,
        off + part.len() <= s.len(),
        s.subrange(off, off + part.len()) == part,
        0 <= lo <= hi <= part.len(),
    ensures
        s.subrange(off + lo, off + hi) == part.subrange(lo, hi),
{
    assert(s.subrange(off + lo, off + hi) =~= part.subrange(lo, hi)) by {
        assert forall|k: int| 0 <= k < hi - lo implies s.subrange(off + lo, off + hi)[k]
            == part.subrange(lo, hi)[k] by {
            assert(s.subrange(off, off + part.len() as int)[lo + k] == part[lo + k]);
        }
    }
}

/// Splits a known prefix of `s` into its two halves.
pub proof fn lemma_split_prefix(s: Seq<char>, whole: Seq<char>, pre: Seq<char>, part: Seq<char>)
    requires
        whole == pre + part,
        whole.len() <= s.len(),
        s.subrange(0, whole.len() as int) == whole,
    ensures
        s.subrange(0, pre.len() as int) == pre,
        s.subrange(pre.len() as int, whole.len() as int) == part,
{
    lemma_sub_at(s, 0, whole, 0, pre.len() as int);
    lemma_subrange_of_prefix(whole, pre, part, 0, pre.len() as int);
    assert(pre.subrange(0, pre.len() as int) =~= pre);
    lemma_sub_at(s, 0, whole, pre.len() as int, whole.len() as int);
    lemma_suffix_of_concat(whole, pre, part);
}

/// Splits a known window of `s` into its two halves.
pub proof fn lemma_split_at(s: Seq<char>, off: int, whole: Seq<char>, pre: Seq<char>, part: Seq<char>)
    requires
        whole == pre + part,
        0 <= off,
        off + whole.len() <= s.len(),
        s.subrange(off, off + whole.len()) == whole,
    ensures
        s.subrange(off, off + pre.len()) == pre,
        s.subrange(off + pre.len(), off + whole.len()) == part,
{
    lemma_sub_at(s, off, whole, 0, pre.len() as int);
    lemma_subrange_of_prefix(whole, pre, part, 0, pre.len() as int);
    assert(pre.subrange(0, pre.len() as int) =~= pre);
    lemma_sub_at(s, off, whole, pre.len() as int, whole.len() as int);
    lemma_suffix_of_concat(whole, pre, part);
}

/// Consumes the closing brace and requires that only whitespace
/// follows it.
pub open spec fn parse_end(s: Seq<char>, i: int) -> bool {
    match eat_spec(s, i, "}"@) {
        None => false,
        Some(j) => ws_end(s, j) == s.len(),
    }
}

/// Executable mirror of [`parse_end`].
pub fn scan_end(s: &Vec<char>, i: usize) -> (r: bool)
    requires
        i <= s.len(),
    ensures
        r == parse_end(s@, i as int),
{
    match eat(s, i, "}") {
        None => false,
        Some(j) => {
            let k = skip_ws(s, j);
            k == s.len()
        },
    }
}

/// A token standing verbatim at `i` (and not opening with
/// whitespace) is consumed exactly.
pub proof fn lemma_eat_at(s: Seq<char>, i: int, lit: Seq<char>)
    requires
        0 <= i,
        lit.len() > 0,
        !is_ws(lit[0]),
        i + lit.len() <= s.len(),
        s.subrange(i, i + lit.len()) == lit,
    ensures
        eat_spec(s, i, lit) == Some(i + lit.len() as int),
{
    assert(s[i] == s.subrange(i, i + lit.len())[0]);
    assert(!is_ws(s[i]));
    assert(ws_end(s, i) == i);
    assert(match_at(s, i, lit));
}

/// A quoted, escaped string standing at `i` is parsed back to its
/// unescaped content.
pub proof fn lemma_parse_quoted_at(s: Seq<char>, i: int, v: Seq<char>)
    requires
        0 <= i,
        i + quoted(v).len() <= s.len(),
        s.subrange(i, i + quoted(v).len()) == quoted(v),
    ensures
        parse_quoted_spec(s, i) == Some((v, i + quoted(v).len())),
{
    let e = escape_str(v);
    assert(quoted(v).len() == e.len() + 2);
    assert(s[i] == s.subrange(i, i + quoted(v).len())[0]);
    assert(quoted(v)[0] == '"');
    assert(!is_ws(s[i]));
    assert(ws_end(s, i) == i);
    assert(s.subrange(i + 1, i + 1 + e.len()) =~= e) by {
        assert forall|k: int| 0 <= k < e.len() implies s.subrange(i + 1, i + 1 + e.len())[k]
            == e[k] by {
            assert(s.subrange(i, i + quoted(v).len() as int)[1 + k] == quoted(v)[1 + k]);
            assert(quoted(v)[1 + k] == e[k]);
        }
    }
    assert(s[i + 1 + e.len() as int] == s.subrange(i, i + quoted(v).len() as int)[1 + e.len() as int]);
    assert(quoted(v)[1 + e.len() as int] == '"');
    lemma_parse_escaped(s, v, i + 1);
}

// ---------------------------------------------------------------------------
// Object fields: `"key":<value>`
// ---------------------------------------------------------------------------

/// The printed form of a string-valued field.
pub open spec fn field_str(key: Seq<char>, v: Seq<char>) -> Seq<char> {
    key + ":"@ + quoted(v)
}

/// The printed form of a number-valued field.
pub open spec fn field_nat(key: Seq<char>, n: nat) -> Seq<char> {
    key + ":"@ + dec_digits(n)
}

/// The printed form of a boolean-valued field.
pub open spec fn field_bool(key: Seq<char>, b: bool) -> Seq<char> {
    key + ":"@ + (if b {
        "true"@
    } else {
        "false"@
    })
}

/// An optional string value: `null` or a quoted string.
pub open spec fn opt_str_text(v: Option<Seq<char>>) -> Seq<char> {
    match v {
        None => "null"@,
        Some(x) => quoted(x),
    }
}

/// The printed form of an optional-string field.
pub open spec fn field_optstr(key: Seq<char>, v: Option<Seq<char>>) -> Seq<char> {
    key + ":"@ + opt_str_text(v)
}

/// An optional number value: `null` or decimal digits.
pub open spec fn opt_nat_text(v: Option<nat>) -> Seq<char> {
    match v {
        None => "null"@,
        Some(n) => dec_digits(n),
    }
}

/// The printed form of an optional-number field.
pub open spec fn field_optnat(key: Seq<char>, v: Option<nat>) -> Seq<char> {
    key + ":"@ + opt_nat_text(v)
}

/// Consumes a string-valued field: its quoted key, a colon, and the
/// quoted value; whitespace may stand between tokens.
pub open spec fn parse_field_str(s: Seq<char>, i: int, key: Seq<char>) -> Option<(Seq<char>, int)> {
    match eat_spec(s, i, key) {
        None => None,
        Some(i1) => match eat_spec(s, i1, ":"@) {
            None => None,
            Some(i2) => parse_quoted_spec(s, i2),
        },
    }
}

/// Consumes an integer-valued field.
pub open spec fn parse_field_int(s: Seq<char>, i: int, key: Seq<char>) -> Option<(int, int)> {
    match eat_spec(s, i, key) {
        None => None,
        Some(i1) => match eat_spec(s, i1, ":"@) {
            None => None,
            Some(i2) => parse_int(s, ws_end(s, i2)),
        },
    }
}

/// Consumes an unsigned-number field.
pub open spec fn parse_field_nat(s: Seq<char>, i: int, key: Seq<char>) -> Option<(nat, int)> {
    match eat_spec(s, i, key) {
        None => None,
        Some(i1) => match eat_spec(s, i1, ":"@) {
            None => None,
            Some(i2) => parse_nat(s, ws_end(s, i2)),
        },
    }
}

/// Consumes a boolean-valued field.
pub open spec fn parse_field_bool(s: Seq<char>, i: int, key: Seq<char>) -> Option<(bool, int)> {
    match eat_spec(s, i, key) {
        None => None,
        Some(i1) => match eat_spec(s, i1, ":"@) {
            None => None,
            Some(i2) => match eat_spec(s, i2, "true"@) {
                Some(j) => Some((true, j)),
                None => match eat_spec(s, i2, "false"@) {
                    Some(j) => Some((false, j)),
                    None => None,
                },
            },
        },
    }
}

/// Consumes `null` or a quoted string.
pub open spec fn parse_opt_str(s: Seq<char>, i: int) -> Option<(Option<Seq<char>>, int)> {
    match eat_spec(s, i, "null"@) {
        Some(j) => Some((None, j)),
        None => match parse_quoted_spec(s, i) {
            Some((v, j)) => Some((Some(v), j)),
            None => None,
        },
    }
}

/// Consumes an optional-string field.
pub open spec fn parse_field_optstr(s: Seq<char>, i: int, key: Seq<char>) -> Option<
    (Option<Seq<char>>, int),
> {
    match eat_spec(s, i, key) {
        None => None,
        Some(i1) => match eat_spec(s, i1, ":"@) {
            None => None,
            Some(i2) => parse_opt_str(s, i2),
        },
    }
}

/// Consumes `null` or an unsigned number.
pub open spec fn parse_opt_nat(s: Seq<char>, i: int) -> Option<(Option<nat>, int)> {
    match eat_spec(s, i, "null"@) {
        Some(j) => Some((None, j)),
        None => match parse_nat(s, ws_end(s, i)) {
            Some((n, j)) => Some((Some(n), j)),
            None => None,
        },
    }
}

/// Consumes an optional-number field.
pub open spec fn parse_field_optnat(s: Seq<char>, i: int, key: Seq<char>) -> Option<
    (Option<nat>, int),
> {
    match eat_spec(s, i, key) {
        None => None,
        Some(i1) => match eat_spec(s, i1, ":"@) {
            None => None,
            Some(i2) => parse_opt_nat(s, i2),
        },
    }
}

// ---------------------------------------------------------------------------
// Bounds of the consumers
// ---------------------------------------------------------------------------

/// Skipping whitespace never moves backwards.
pub proof fn lemma_ws_end_ge(s: Seq<char>, i: int)
    ensures
        ws_end(s, i) >= i,
    decreases s.len() - i,
{
    if 0 <= i && i < s.len() && is_ws(s[i]) {
        lemma_ws_end_ge(s, i + 1);
    }
}

/// A successful token always advances and ends inside the input.
pub proof fn lemma_eat_some_bounds(s: Seq<char>, i: int, lit: Seq<char>)
    requires
        eat_spec(s, i, lit) is Some,
        lit.len() >= 1,
    ensures
        i < eat_spec(s, i, lit).unwrap() <= s.len(),
{
    lemma_ws_end_ge(s, i);
}

/// A successful quoted string always advances and ends inside the
/// input.
pub proof fn lemma_parse_quoted_some_bounds(s: Seq<char>, i: int)
    requires
        parse_quoted_spec(s, i) is Some,
    ensures
        i < parse_quoted_spec(s, i).unwrap().1 <= s.len(),
{
    lemma_ws_end_ge(s, i);
    let j = ws_end(s, i);
    lemma_parse_str_body_bounds(s, j + 1);
}

/// A successful string field always advances and ends inside the
/// input.
pub proof fn lemma_parse_field_str_some_bounds(s: Seq<char>, i: int, key: Seq<char>)
    requires
        parse_field_str(s, i, key) is Some,
        key.len() >= 1,
    ensures
        i < parse_field_str(s, i, key).unwrap().1 <= s.len(),
{
    reveal_strlit(":");
    lemma_eat_some_bounds(s, i, key);
    let i1 = eat_spec(s, i, key).unwrap();
    lemma_eat_some_bounds(s, i1, ":"@);
    let i2 = eat_spec(s, i1, ":"@).unwrap();
    lemma_parse_quoted_some_bounds(s, i2);
}

/// A successful boolean field always advances and ends inside the
/// input.
pub proof fn lemma_parse_field_bool_some_bounds(s: Seq<char>, i: int, key: Seq<char>)
    requires
        parse_field_bool(s, i, key) is Some,
        key.len() >= 1,
    ensures
        i < parse_field_bool(s, i, key).unwrap().1 <= s.len(),
{
    reveal_strlit(":");
    reveal_strlit("true");
    reveal_strlit("false");
    lemma_eat_some_bounds(s, i, key);
    let i1 = eat_spec(s, i, key).unwrap();
    lemma_eat_some_bounds(s, i1, ":"@);
    let i2 = eat_spec(s, i1, ":"@).unwrap();
    if eat_spec(s, i2, "true"@) is Some {
        lemma_eat_some_bounds(s, i2, "true"@);
    } else {
        lemma_eat_some_bounds(s, i2, "false"@);
    }
}

// ---------------------------------------------------------------------------
// Fields are parsed back from their printed forms
// ---------------------------------------------------------------------------

/// A string field printed at `i` parses back to its value.
pub proof fn lemma_field_str_at(s: Seq<char>, i: int, key: Seq<char>, v: Seq<char>)
    requires
        0 <= i,
        key.len() >= 1,
        key[0] == '"',
        i + field_str(key, v).len() <= s.len(),
        s.subrange(i, i + field_str(key, v).len()) == field_str(key, v),
    ensures
        parse_field_str(s, i, key) == Some((v, i + field_str(key, v).len())),
{
    reveal_strlit(":");
    let f = field_str(key, v);
    let kl = key.len() as int;
    let h1 = key + ":"@;
    assert(f == h1 + quoted(v));
    lemma_sub_at(s, i, f, 0, kl);
    lemma_subrange_of_prefix(f, h1, quoted(v), 0, kl);
    lemma_subrange_of_prefix(h1, key, ":"@, 0, kl);
    assert(key.subrange(0, kl) =~= key);
    lemma_eat_at(s, i, key);
    lemma_sub_at(s, i, f, kl, kl + 1);
    lemma_subrange_of_prefix(f, h1, quoted(v), kl, kl + 1);
    lemma_suffix_of_concat(h1, key, ":"@);
    lemma_eat_at(s, i + kl, ":"@);
    lemma_sub_at(s, i, f, kl + 1, f.len() as int);
    lemma_suffix_of_concat(f, h1, quoted(v));
    lemma_parse_quoted_at(s, i + kl + 1, v);
}

/// A number field printed at `i`, not followed by a further digit,
/// parses back to its value.
pub proof fn lemma_field_nat_at(s: Seq<char>, i: int, key: Seq<char>, n: nat)
    requires
        0 <= i,
        key.len() >= 1,
        key[0] == '"',
        n <= 0xffff_ffff_ffff_ffff,
        i + field_nat(key, n).len() <= s.len(),
        s.subrange(i, i + field_nat(key, n).len()) == field_nat(key, n),
        i + field_nat(key, n).len() == s.len() || !is_dec_digit(s[i + field_nat(key, n).len()]),
    ensures
        parse_field_nat(s, i, key) == Some((n, i + field_nat(key, n).len())),
{
    reveal_strlit(":");
    let f = field_nat(key, n);
    let kl = key.len() as int;
    let d = dec_digits(n);
    let h1 = key + ":"@;
    assert(f == h1 + d);
    lemma_sub_at(s, i, f, 0, kl);
    lemma_subrange_of_prefix(f, h1, d, 0, kl);
    lemma_subrange_of_prefix(h1, key, ":"@, 0, kl);
    assert(key.subrange(0, kl) =~= key);
    lemma_eat_at(s, i, key);
    lemma_sub_at(s, i, f, kl, kl + 1);
    lemma_subrange_of_prefix(f, h1, d, kl, kl + 1);
    lemma_suffix_of_concat(h1, key, ":"@);
    lemma_eat_at(s, i + kl, ":"@);
    lemma_sub_at(s, i, f, kl + 1, f.len() as int);
    lemma_suffix_of_concat(f, h1, d);
    lemma_dec_digits_are_digits(n);
    assert(s[i + kl + 1] == s.subrange(i + kl + 1, i + f.len() as int)[0]);
    assert(is_dec_digit(s[i + kl + 1]));
    assert(!is_ws(s[i + kl + 1]));
    assert(ws_end(s, i + kl + 1) == i + kl + 1);
    lemma_parse_dec(s, n, i + kl + 1);
}

/// A boolean field printed at `i` parses back to its value.
pub proof fn lemma_field_bool_at(s: Seq<char>, i: int, key: Seq<char>, b: bool)
    requires
        0 <= i,
        key.len() >= 1,
        key[0] == '"',
        i + field_bool(key, b).len() <= s.len(),
        s.subrange(i, i + field_bool(key, b).len()) == field_bool(key, b),
    ensures
        parse_field_bool(s, i, key) == Some((b, i + field_bool(key, b).len())),
{
    reveal_strlit(":");
    reveal_strlit("true");
    reveal_strlit("false");
    let f = field_bool(key, b);
    let kl = key.len() as int;
    let t = if b {
        "true"@
    } else {
        "false"@
    };
    let h1 = key + ":"@;
    assert(f == h1 + t);
    lemma_sub_at(s, i, f, 0, kl);
    lemma_subrange_of_prefix(f, h1, t, 0, kl);
    lemma_subrange_of_prefix(h1, key, ":"@, 0, kl);
    assert(key.subrange(0, kl) =~= key);
    lemma_eat_at(s, i, key);
    lemma_sub_at(s, i, f, kl, kl + 1);
    lemma_subrange_of_prefix(f, h1, t, kl, kl + 1);
    lemma_suffix_of_concat(h1, key, ":"@);
    lemma_eat_at(s, i + kl, ":"@);
    lemma_sub_at(s, i, f, kl + 1, f.len() as int);
    lemma_suffix_of_concat(f, h1, t);
    if b {
        lemma_eat_at(s, i + kl + 1, "true"@);
    } else {
        assert(s[i + kl + 1] == s.subrange(i + kl + 1, i + f.len() as int)[0]);
        assert(ws_end(s, i + kl + 1) == i + kl + 1);
        assert(eat_spec(s, i + kl + 1, "true"@) is None) by {
            if match_at(s, i + kl + 1, "true"@) {
                assert(s.subrange(i + kl + 1, i + kl + 5)[0] == "true"@[0]);
            }
        }
        lemma_eat_at(s, i + kl + 1, "false"@);
    }
}

/// An optional-string field printed at `i` parses back to its value.
pub proof fn lemma_field_optstr_at(s: Seq<char>, i: int, key: Seq<char>, v: Option<Seq<char>>)
    requires
        0 <= i,
        key.len() >= 1,
        key[0] == '"',
        i + field_optstr(key, v).len() <= s.len(),
        s.subrange(i, i + field_optstr(key, v).len()) == field_optstr(key, v),
    ensures
        parse_field_optstr(s, i, key) == Some((v, i + field_optstr(key, v).len())),
{
    reveal_strlit(":");
    reveal_strlit("null");
    let f = field_optstr(key, v);
    let kl = key.len() as int;
    let t = opt_str_text(v);
    let h1 = key + ":"@;
    assert(f == h1 + t);
    lemma_sub_at(s, i, f, 0, kl);
    lemma_subrange_of_prefix(f, h1, t, 0, kl);
    lemma_subrange_of_prefix(h1, key, ":"@, 0, kl);
    assert(key.subrange(0, kl) =~= key);
    lemma_eat_at(s, i, key);
    lemma_sub_at(s, i, f, kl, kl + 1);
    lemma_subrange_of_prefix(f, h1, t, kl, kl + 1);
    lemma_suffix_of_concat(h1, key, ":"@);
    lemma_eat_at(s, i + kl, ":"@);
    lemma_sub_at(s, i, f, kl + 1, f.len() as int);
    lemma_suffix_of_concat(f, h1, t);
    match v {
        None => {
            lemma_eat_at(s, i + kl + 1, "null"@);
        },
        Some(x) => {
            assert(s[i + kl + 1] == s.subrange(i + kl + 1, i + f.len() as int)[0]);
            assert(s[i + kl + 1] == '"');
            assert(ws_end(s, i + kl + 1) == i + kl + 1);
            assert(eat_spec(s, i + kl + 1, "null"@) is None) by {
                if match_at(s, i + kl + 1, "null"@) {
                    assert(s.subrange(i + kl + 1, i + kl + 5)[0] == "null"@[0]);
                }
            }
            lemma_parse_quoted_at(s, i + kl + 1, x);
        },
    }
}

/// An optional-number field printed at `i`, not followed by a
/// further digit, parses back to its value.
pub proof fn lemma_field_optnat_at(s: Seq<char>, i: int, key: Seq<char>, v: Option<nat>)
    requires
        0 <= i,
        key.len() >= 1,
        key[0] == '"',
        v matches Some(n) ==> n <= 0xffff_ffff_ffff_ffff,
        i + field_optnat(key, v).len() <= s.len(),
        s.subrange(i, i + field_optnat(key, v).len()) == field_optnat(key, v),
        i + field_optnat(key, v).len() == s.len() || !is_dec_digit(
            s[i + field_optnat(key, v).len()],
        ),
    ensures
        parse_field_optnat(s, i, key) == Some((v, i + field_optnat(key, v).len())),
{
    reveal_strlit(":");
    reveal_strlit("null");
    let f = field_optnat(key, v);
    let kl = key.len() as int;
    let t = opt_nat_text(v);
    let h1 = key + ":"@;
    assert(f == h1 + t);
    lemma_sub_at(s, i, f, 0, kl);
    lemma_subrange_of_prefix(f, h1, t, 0, kl);
    lemma_subrange_of_prefix(h1, key, ":"@, 0, kl);
    assert(key.subrange(0, kl) =~= key);
    lemma_eat_at(s, i, key);
    lemma_sub_at(s, i, f, kl, kl + 1);
    lemma_subrange_of_prefix(f, h1, t, kl, kl + 1);
    lemma_suffix_of_concat(h1, key, ":"@);
    lemma_eat_at(s, i + kl, ":"@);
    lemma_sub_at(s, i, f, kl + 1, f.len() as int);
    lemma_suffix_of_concat(f, h1, t);
    match v {
        None => {
            lemma_eat_at(s, i + kl + 1, "null"@);
        },
        Some(n) => {
            lemma_dec_digits_are_digits(n);
            assert(s[i + kl + 1] == s.subrange(i + kl + 1, i + f.len() as int)[0]);
            assert(is_dec_digit(s[i + kl + 1]));
            assert(!is_ws(s[i + kl + 1]));
            assert(ws_end(s, i + kl + 1) == i + kl + 1);
            assert(eat_spec(s, i + kl + 1, "null"@) is None) by {
                if match_at(s, i + kl + 1, "null"@) {
                    assert(s.subrange(i + kl + 1, i + kl + 5)[0] == "null"@[0]);
                    assert(is_dec_digit('n'));
                }
            }
            lemma_parse_dec(s, n, i + kl + 1);
        },
    }
}

// ---------------------------------------------------------------------------
// Executable field scanners
// ---------------------------------------------------------------------------

/// Executable mirror of [`parse_field_str`].
pub fn scan_field_str(s: &Vec<char>, i: usize, key: &str) -> (r: Option<(Vec<char>, usize)>)
    requires
        i <= s.len(),
    ensures
        match r {
            Some(p) => parse_field_str(s@, i as int, key@) == Some((p.0@, p.1 as int)) && p.1
                <= s.len(),
            None => parse_field_str(s@, i as int, key@) is None,
        },
{
    match eat(s, i, key) {
        None => None,
        Some(i1) => match eat(s, i1, ":") {
            None => None,
            Some(i2) => scan_quoted(s, i2),
        },
    }
}

/// Executable mirror of [`parse_field_nat`], within `u64` range.
pub fn scan_field_u64(s: &Vec<char>, i: usize, key: &str) -> (r: Option<(u64, usize)>)
    requires
        i <= s.len(),
    ensures
        match r {
            Some(p) => parse_field_nat(s@, i as int, key@) == Some((p.0 as nat, p.1 as int)) && p.1
                <= s.len(),
            None => parse_field_nat(s@, i as int, key@) is None || parse_field_nat(
                s@,
                i as int,
                key@,
            ).unwrap().0 > u64::MAX,
        },
{
    match eat(s, i, key) {
        None => None,
        Some(i1) => match eat(s, i1, ":") {
            None => None,
            Some(i2) => {
                let j = skip_ws(s, i2);
                match scan_u64(s, j) {
                    None => None,
                    Some((n, k)) => {
                        proof {
                            lemma_num_end_bounds(s@, j as int);
                        }
                        Some((n, k))
                    },
                }
            },
        },
    }
}

/// Executable mirror of [`parse_field_bool`].
pub fn scan_field_bool(s: &Vec<char>, i: usize, key: &str) -> (r: Option<(bool, usize)>)
    requires
        i <= s.len(),
    ensures
        match r {
            Some(p) => parse_field_bool(s@, i as int, key@) == Some((p.0, p.1 as int)) && p.1
                <= s.len(),
            None => parse_field_bool(s@, i as int, key@) is None,
        },
{
    match eat(s, i, key) {
        None => None,
        Some(i1) => match eat(s, i1, ":") {
            None => None,
            Some(i2) => match eat(s, i2, "true") {
                Some(j) => Some((true, j)),
                None => match eat(s, i2, "false") {
                    Some(j) => Some((false, j)),
                    None => None,
                },
            },
        },
    }
}

/// Executable mirror of [`parse_field_optstr`].
pub fn scan_field_optstr(s: &Vec<char>, i: usize, key: &str) -> (r: Option<
    (Option<Vec<char>>, usize),
>)
    requires
        i <= s.len(),
    ensures
        match r {
            Some(p) => ({
                let sp = parse_field_optstr(s@, i as int, key@);
                &&& sp is Some
                &&& sp.unwrap().1 == p.1 as int
                &&& p.1 <= s.len()
                &&& match p.0 {
                    None => sp.unwrap().0 is None,
                    Some(v) => sp.unwrap().0 == Some(v@),
                }
            }),
            None => parse_field_optstr(s@, i as int, key@) is None,
        },
{
    match eat(s, i, key) {
        None => None,
        Some(i1) => match eat(s, i1, ":") {
            None => None,
            Some(i2) => match eat(s, i2, "null") {
                Some(j) => Some((None, j)),
                None => match scan_quoted(s, i2) {
                    Some((v, j)) => Some((Some(v), j)),
                    None => None,
                },
            },
        },
    }
}

/// Executable mirror of [`parse_field_optnat`], within `u64` range.
pub fn scan_field_optu64(s: &Vec<char>, i: usize, key: &str) -> (r: Option<
    (Option<u64>, usize),
>)
    requires
        i <= s.len(),
    ensures
        match r {
            Some(p) => ({
                let sp = parse_field_optnat(s@, i as int, key@);
                &&& sp is Some
                &&& sp.unwrap().1 == p.1 as int
                &&& p.1 <= s.len()
                &&& match p.0 {
                    None => sp.unwrap().0 is None,
                    Some(n) => sp.unwrap().0 == Some(n as nat),
                }
            }),
            None => parse_field_optnat(s@, i as int, key@) is None || (parse_field_optnat(
                s@,
                i as int,
                key@,
            ).unwrap().0 matches Some(n) && n > u64::MAX),
        },
{
    match eat(s, i, key) {
        None => None,
        Some(i1) => match eat(s, i1, ":") {
            None => None,
            Some(i2) => match eat(s, i2, "null") {
                Some(j) => Some((None, j)),
                None => {
                    let j = skip_ws(s, i2);
                    match scan_u64(s, j) {
                        None => None,
                        Some((n, k)) => {
                            proof {
                                lemma_num_end_bounds(s@, j as int);
                            }
                            Some((Some(n), k))
                        },
                    }
                },
            },
        },
    }
}

/// Escaped text never holds a newline, so a printed object stays on
/// one line.
pub proof fn lemma_escape_str_no_newline(s: Seq<char>)
    ensures
        forall|k: int| 0 <= k < escape_str(s).len() ==> #[trigger] escape_str(s)[k] != '\n',
    decreases s.len(),
{
    if s.len() > 0 {
        let head = esc_char(s[0]);
        let tail = escape_str(s.subrange(1, s.len() as int));
        lemma_escape_str_no_newline(s.subrange(1, s.len() as int));
        assert(escape_str(s) == head + tail);
        assert forall|k: int| 0 <= k < escape_str(s).len() implies #[trigger] escape_str(s)[k]
            != '\n' by {
            if k < head.len() {
                assert(escape_str(s)[k] == head[k]);
                assert(head[k] != '\n');
            } else {
                assert(escape_str(s)[k] == tail[k - head.len()]);
            }
        }
    }
}

} // verus!
