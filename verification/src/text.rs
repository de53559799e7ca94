//! Decimal rendering of integers and fixed-point numbers, as the key titles
//! and the key art print them.

use vstd::prelude::*;
use vstd::string::*;

verus! {

/// The ASCII digit for `d` (taken below ten).
pub open spec fn digit_char(d: nat) -> char {
    if d == 0 {
        '0'
    } else if d == 1 {
        '1'
    } else if d == 2 {
        '2'
    } else if d == 3 {
        '3'
    } else if d == 4 {
        '4'
    } else if d == 5 {
        '5'
    } else if d == 6 {
        '6'
    } else if d == 7 {
        '7'
    } else if d == 8 {
        '8'
    } else {
        '9'
    }
}

/// The decimal digits of `n`, most significant first, without leading zeros.
pub open spec fn dec(n: nat) -> Seq<char>
    decreases n,
{
    if n < 10 {
        seq![digit_char(n)]
    } else {
        dec(n / 10).push(digit_char(n % 10))
    }
}

/// Ten to the power `p`.
pub open spec fn pow10(p: nat) -> nat
    decreases p,
{
    if p == 0 {
        1
    } else {
        10 * pow10((p - 1) as nat)
    }
}

/// The last `p` decimal digits of `r`, zero-padded on the left.
pub open spec fn frac_digits(r: nat, p: nat) -> Seq<char>
    decreases p,
{
    if p == 0 {
        seq![]
    } else {
        frac_digits(r / 10, (p - 1) as nat).push(digit_char(r % 10))
    }
}

/// `v` read in units of `10^-p`, printed with exactly `p` decimal places
/// (such as `v == 1412`, `p == 2` printing `14.12`).
pub open spec fn fixed(v: nat, p: nat) -> Seq<char> {
    dec(v / pow10(p)) + seq!['.'] + frac_digits(v % pow10(p), p)
}

fn digit_str(d: u64) -> (s: &'static str)
    requires
        d < 10,
    ensures
        s@ == seq![digit_char(d as nat)],
{
    proof {
        reveal_strlit("0");
        reveal_strlit("1");
        reveal_strlit("2");
        reveal_strlit("3");
        reveal_strlit("4");
        reveal_strlit("5");
        reveal_strlit("6");
        reveal_strlit("7");
        reveal_strlit("8");
        reveal_strlit("9");
    }
    if d == 0 {
        "0"
    } else if d == 1 {
        "1"
    } else if d == 2 {
        "2"
    } else if d == 3 {
        "3"
    } else if d == 4 {
        "4"
    } else if d == 5 {
        "5"
    } else if d == 6 {
        "6"
    } else if d == 7 {
        "7"
    } else if d == 8 {
        "8"
    } else {
        "9"
    }
}

/// Appends the decimal digits of `n` to `out`.
pub fn push_dec(out: &mut String, n: u64)
    ensures
        final(out)@ == old(out)@ + dec(n as nat),
    decreases n,
{
    if n >= 10 {
        push_dec(out, n / 10);
        out.append(digit_str(n % 10));
    } else {
        out.append(digit_str(n));
    }
}

fn push_frac(out: &mut String, r: u64, p: u32)
    ensures
        final(out)@ == old(out)@ + frac_digits(r as nat, p as nat),
    decreases p,
{
    if p > 0 {
        push_frac(out, r / 10, p - 1);
        out.append(digit_str(r % 10));
    }
}

/// Appends `v`, read in units of `10^-p`, with exactly `p` decimal places.
pub fn push_fixed(out: &mut String, v: u64, p: u32)
    requires
        1 <= p <= 5,
    ensures
        final(out)@ == old(out)@ + fixed(v as nat, p as nat),
{
    let scale: u64 = if p == 1 {
        10
    } else if p == 2 {
        100
    } else if p == 3 {
        1000
    } else if p == 4 {
        10000
    } else {
        100000
    };
    assert(scale == pow10(p as nat)) by {
        reveal_with_fuel(pow10, 6);
    }
    push_dec(out, v / scale);
    out.append(".");
    proof {
        reveal_strlit(".");
    }
    push_frac(out, v % scale, p);
}

/// `v`, read in units of `10^-p`, with exactly `p` decimal places.
pub fn fixed_string(v: u64, p: u32) -> (s: String)
    requires
        1 <= p <= 5,
    ensures
        s@ == fixed(v as nat, p as nat),
{
    let mut s = String::new();
    push_fixed(&mut s, v, p);
    assert(s@ =~= fixed(v as nat, p as nat));
    s
}

/// The decimal digits of `n`.
pub fn dec_string(n: u64) -> (s: String)
    ensures
        s@ == dec(n as nat),
{
    let mut s = String::new();
    push_dec(&mut s, n);
    assert(s@ =~= dec(n as nat));
    s
}

/// Calls `String::push`, which appends one character at the end.
#[verifier::external_body]
pub(crate) fn push_char(s: &mut String, c: char)
    ensures
        final(s)@ == old(s)@.push(c),
{
    s.push(c)
}

/// Unicode `White_Space`, the characters `char::is_whitespace` accepts:
/// tab through carriage return, space, next line, no-break space, ogham
/// space mark, en quad through hair space, line and paragraph separators,
/// narrow no-break space, medium mathematical space, ideographic space.
pub open spec fn white_space(c: char) -> bool {
    ||| c == ' '
    ||| ('\u{9}' <= c && c <= '\u{d}')
    ||| c == '\u{85}'
    ||| c == '\u{a0}'
    ||| c == '\u{1680}'
    ||| ('\u{2000}' <= c && c <= '\u{200a}')
    ||| c == '\u{2028}'
    ||| c == '\u{2029}'
    ||| c == '\u{202f}'
    ||| c == '\u{205f}'
    ||| c == '\u{3000}'
}

/// Whether `c` is Unicode white space (as `char::is_whitespace`).
pub fn is_white_space(c: char) -> (ws: bool)
    ensures
        ws == white_space(c),
{
    c == ' ' || ('\u{9}' <= c && c <= '\u{d}') || c == '\u{85}' || c == '\u{a0}' || c == '\u{1680}'
        || ('\u{2000}' <= c && c <= '\u{200a}') || c == '\u{2028}' || c == '\u{2029}' || c
        == '\u{202f}' || c == '\u{205f}' || c == '\u{3000}'
}

/// A signed value read in units of `10^-p`, printed with exactly `p`
/// decimal places and a leading `-` when negative.
pub open spec fn signed_fixed(v: int, p: nat) -> Seq<char> {
    if v < 0 {
        seq!['-'] + fixed((-v) as nat, p)
    } else {
        fixed(v as nat, p)
    }
}

/// A signed value, read in units of `10^-p`, with exactly `p` decimal places.
pub fn signed_fixed_string(v: i64, p: u32) -> (s: String)
    requires
        1 <= p <= 5,
        v > i64::MIN,
    ensures
        s@ == signed_fixed(v as int, p as nat),
{
    if v < 0 {
        let mut s = "-".to_owned();
        proof {
            reveal_strlit("-");
        }
        s.append(fixed_string((-v) as u64, p).as_str());
        s
    } else {
        fixed_string(v as u64, p)
    }
}

/// `n / d` for a natural `n`, rounded to the nearest integer, ties to even.
pub open spec fn round_nat_div(n: nat, d: nat) -> nat {
    let q = n / d;
    let r = n % d;
    if 2 * r < d {
        q
    } else if 2 * r > d {
        q + 1
    } else if q % 2 == 0 {
        q
    } else {
        q + 1
    }
}

/// `n / d` rounded to the nearest integer, ties to even (symmetric about 0,
/// as decimal printing of a binary fraction rounds).
pub open spec fn round_div(n: int, d: nat) -> int {
    if n >= 0 {
        round_nat_div(n as nat, d) as int
    } else {
        -(round_nat_div((-n) as nat, d) as int)
    }
}

/// `n / d` rounded to nearest, ties to even.
pub fn round_div_i64(n: i64, d: i64) -> (q: i64)
    requires
        0 < d <= 1_000_000,
        n > i64::MIN,
    ensures
        q == round_div(n as int, d as nat),
{
    let neg = n < 0;
    let m: u64 = if neg {
        (-n) as u64
    } else {
        n as u64
    };
    let du = d as u64;
    let q = m / du;
    let r = m % du;
    let rounded: u64 = if 2 * r < du {
        q
    } else if 2 * r > du {
        q + 1
    } else if q % 2 == 0 {
        q
    } else {
        q + 1
    };
    assert(m == du * q + r && r < du) by (nonlinear_arith)
        requires
            du >= 1,
            q == m / du,
            r == m % du,
    ;
    assert(rounded <= m) by (nonlinear_arith)
        requires
            m == du * q + r,
            r < du,
            du >= 1,
            rounded == q || rounded == q + 1,
            rounded == q + 1 ==> 2 * r >= du,
    ;
    assert(rounded == round_nat_div(m as nat, du as nat));
    if neg {
        -(rounded as i64)
    } else {
        rounded as i64
    }
}

/// Rounding to nearest lands within half a step of the exact quotient.
pub proof fn lemma_round_div_close(n: int, d: nat)
    requires
        d > 0,
    ensures
        2 * n - d <= 2 * d * round_div(n, d) <= 2 * n + d,
{
    let m: nat = if n >= 0 { n as nat } else { (-n) as nat };
    let q = m / d;
    let r = m % d;
    assert(m == d * q + r && 0 <= r < d) by (nonlinear_arith)
        requires
            d > 0,
            q == m / d,
            r == m % d,
    ;
    let k = round_nat_div(m, d);
    assert(2 * m - d <= 2 * d * k <= 2 * m + d) by (nonlinear_arith)
        requires
            m == d * q + r,
            0 <= r < d,
            k == q || k == q + 1,
            k == q ==> 2 * r <= d,
            k == q + 1 ==> 2 * r >= d,
    ;
    if n >= 0 {
        assert(round_div(n, d) == k);
    } else {
        assert(round_div(n, d) == -k);
        assert(2 * d * round_div(n, d) == -(2 * d * k)) by (nonlinear_arith)
            requires
                round_div(n, d) == -k,
        ;
    }
}

} // verus!
