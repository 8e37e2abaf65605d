//! Decimal quantities as whole numbers of a fraction of their unit, and
//! their text.

use vstd::prelude::*;
use vstd::string::*;
use crate::text::{decimal, digit_char, push_char, push_decimal};

verus! {

/// The quotient `p / q` rounded to the nearest integer, halves away from
/// zero.
pub open spec fn rounded_quotient(p: int, q: int) -> int
    recommends
        q != 0,
{
    let n = if p < 0 {
        -p
    } else {
        p
    };
    let d = if q < 0 {
        -q
    } else {
        q
    };
    let magnitude = (2 * n + d) / (2 * d);
    if (p < 0) != (q < 0) {
        -magnitude
    } else {
        magnitude
    }
}

/// Rounding a quotient by a whole number other than zero never gives more
/// than the dividend's magnitude.
pub proof fn lemma_rounded_quotient_bounded(p: int, q: int)
    requires
        q != 0,
    ensures
        p >= 0 ==> -p <= rounded_quotient(p, q) <= p,
        p < 0 ==> p <= rounded_quotient(p, q) <= -p,
{
    let n = if p < 0 {
        -p
    } else {
        p
    };
    let d = if q < 0 {
        -q
    } else {
        q
    };
    assert(0 <= (2 * n + d) / (2 * d) <= n) by (nonlinear_arith)
        requires
            n >= 0,
            d >= 1,
    ;
}

/// The greatest magnitude that `round_div` takes.
pub const ROUND_LIMIT: i128 = 0x1000_0000_0000_0000_0000_0000_0000_0000;

/// The quotient rounded to the nearest integer, halves away from zero.
pub fn round_div(p: i128, q: i128) -> (r: i128)
    requires
        q != 0,
        -ROUND_LIMIT <= p <= ROUND_LIMIT,
        -ROUND_LIMIT <= q <= ROUND_LIMIT,
    ensures
        r == rounded_quotient(p as int, q as int),
{
    let n: i128 = if p < 0 {
        -p
    } else {
        p
    };
    let d: i128 = if q < 0 {
        -q
    } else {
        q
    };
    proof {
        lemma_rounded_quotient_bounded(p as int, q as int);
    }
    let magnitude: i128 = (2 * n + d) / (2 * d);
    if (p < 0) != (q < 0) {
        -magnitude
    } else {
        magnitude
    }
}

/// The magnitude of an integer.
pub open spec fn magnitude(i: int) -> nat {
    if i < 0 {
        (-i) as nat
    } else {
        i as nat
    }
}

/// A minus sign below zero, nothing else.
pub open spec fn sign_text(i: int) -> Seq<char> {
    if i < 0 {
        seq!['-']
    } else {
        Seq::empty()
    }
}

/// The decimal numeral of an integer, with a minus sign below zero.
pub open spec fn integer_text(i: int) -> Seq<char> {
    sign_text(i) + decimal(magnitude(i))
}

/// A number of tenths as text with one decimal.
pub open spec fn tenths_text(tenths: int) -> Seq<char> {
    sign_text(tenths) + decimal(magnitude(tenths) / 10) + seq!['.'] + seq![
        digit_char((magnitude(tenths) % 10) as int),
    ]
}

/// A number of hundredths as text with two decimals.
pub open spec fn hundredths_text(hundredths: int) -> Seq<char> {
    sign_text(hundredths) + decimal(magnitude(hundredths) / 100) + seq!['.'] + seq![
        digit_char((magnitude(hundredths) / 10 % 10) as int),
        digit_char((magnitude(hundredths) % 10) as int),
    ]
}

/// The magnitude of an integer.
pub fn magnitude_of(i: i128) -> (m: u128)
    ensures
        m == magnitude(i as int),
{
    if i < 0 {
        if i == i128::MIN {
            0x8000_0000_0000_0000_0000_0000_0000_0000u128
        } else {
            (-i) as u128
        }
    } else {
        i as u128
    }
}

/// Appends the decimal numeral of an integer.
pub fn push_integer(s: &mut String, i: i128)
    ensures
        final(s)@ == old(s)@ + integer_text(i as int),
{
    if i < 0 {
        push_char(s, '-');
    }
    push_decimal(s, magnitude_of(i));
    assert(s@ =~= old(s)@ + integer_text(i as int));
}

/// The decimal numeral of an integer.
pub fn integer_string(i: i128) -> (s: String)
    ensures
        s@ == integer_text(i as int),
{
    let mut s = String::new();
    push_integer(&mut s, i);
    assert(s@ =~= integer_text(i as int));
    s
}

/// Appends one decimal digit.
fn push_digit(s: &mut String, d: u128)
    requires
        d < 10,
    ensures
        final(s)@ == old(s)@.push(digit_char(d as int)),
{
    let ghost before = s@;
    push_decimal(s, d);
    assert(s@ =~= before.push(digit_char(d as int)));
}

/// Appends a number of tenths as text with one decimal.
pub fn push_tenths(s: &mut String, tenths: i128)
    ensures
        final(s)@ == old(s)@ + tenths_text(tenths as int),
{
    let m = magnitude_of(tenths);
    if tenths < 0 {
        push_char(s, '-');
    }
    push_decimal(s, m / 10);
    push_char(s, '.');
    push_digit(s, m % 10);
    assert(s@ =~= old(s)@ + tenths_text(tenths as int));
}

/// A number of tenths as text with one decimal.
pub fn tenths_string(tenths: i128) -> (s: String)
    ensures
        s@ == tenths_text(tenths as int),
{
    let mut s = String::new();
    push_tenths(&mut s, tenths);
    assert(s@ =~= tenths_text(tenths as int));
    s
}

/// A number of hundredths as text with two decimals.
pub fn hundredths_string(hundredths: i128) -> (s: String)
    ensures
        s@ == hundredths_text(hundredths as int),
{
    let mut s = String::new();
    push_hundredths(&mut s, hundredths);
    assert(s@ =~= hundredths_text(hundredths as int));
    s
}

/// Appends a number of hundredths as text with two decimals.
pub fn push_hundredths(s: &mut String, hundredths: i128)
    ensures
        final(s)@ == old(s)@ + hundredths_text(hundredths as int),
{
    let m = magnitude_of(hundredths);
    if hundredths < 0 {
        push_char(s, '-');
    }
    push_decimal(s, m / 100);
    push_char(s, '.');
    push_digit(s, m / 10 % 10);
    push_digit(s, m % 10);
    assert(s@ =~= old(s)@ + hundredths_text(hundredths as int));
}

} // verus!
