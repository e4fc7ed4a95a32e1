//! Decimal rendering of whole numbers and of fixed-point quantities.
//!
//! Fractional quantities in this crate are whole numbers of millionths. They
//! are printed with a chosen number of decimal places, rounded to the nearest
//! representable value with ties going to the even neighbour.

use vstd::prelude::*;

verus! {

/// Number of millionths in one whole.
pub const MICROS_PER_UNIT: i64 = 1_000_000;

/// The character for a single decimal digit `0..=9`.
pub open spec fn digit(d: nat) -> char {
    (48 + d) as char
}

/// `n` in decimal, without leading zeros (`0` itself is a single digit).
pub open spec fn decimal(n: nat) -> Seq<char>
    decreases n,
{
    if n < 10 {
        seq![digit(n)]
    } else {
        decimal(n / 10).push(digit(n % 10))
    }
}

/// The last `width` decimal digits of `n`, zero-padded on the left.
pub open spec fn padded(n: nat, width: nat) -> Seq<char>
    decreases width,
{
    if width == 0 {
        Seq::empty()
    } else {
        padded(n / 10, (width - 1) as nat).push(digit(n % 10))
    }
}

/// Ten to the power `k`.
pub open spec fn pow10(k: nat) -> nat
    decreases k,
{
    if k == 0 {
        1
    } else {
        10 * pow10((k - 1) as nat)
    }
}

/// `n / d` rounded to the nearest whole number, ties to the even neighbour.
pub open spec fn round_half_even(n: nat, d: nat) -> nat
    recommends
        d > 0,
{
    let q = n / d;
    let r = n % d;
    if 2 * r > d || (2 * r == d && q % 2 == 1) {
        q + 1
    } else {
        q
    }
}

/// `n / d` rounded to the nearest whole number, ties away from zero.
pub open spec fn round_half_up(n: nat, d: nat) -> nat
    recommends
        d > 0,
{
    (2 * n + d) / (2 * d)
}

/// A quantity of `micros` millionths printed with `places` decimal places.
pub open spec fn fixed_text(micros: nat, places: nat) -> Seq<char>
    recommends
        places <= 6,
{
    let q = round_half_even(micros, pow10((6 - places) as nat));
    if places == 0 {
        decimal(q)
    } else {
        decimal(q / pow10(places)) + seq!['.'] + padded(q % pow10(places), places)
    }
}

/// The character for the digit `d`.
pub fn digit_char(d: u8) -> (c: char)
    requires
        d < 10,
    ensures
        c == digit(d as nat),
{
    (48u8 + d) as char
}

/// Appends `n` in decimal to `out`.
pub fn push_decimal(out: &mut String, n: u128)
    ensures
        final(out)@ == old(out)@ + decimal(n as nat),
    decreases n,
{
    if n >= 10 {
        push_decimal(out, n / 10);
    }
    out.push(digit_char((n % 10) as u8));
    proof {
        if n >= 10 {
            assert(final(out)@ =~= old(out)@ + decimal(n as nat));
        } else {
            assert(final(out)@ =~= old(out)@ + decimal(n as nat));
        }
    }
}

/// `n` in decimal, as a string.
pub fn decimal_string(n: u128) -> (out: String)
    ensures
        out@ == decimal(n as nat),
{
    let mut out = String::new();
    push_decimal(&mut out, n);
    assert(Seq::<char>::empty() + decimal(n as nat) =~= decimal(n as nat));
    out
}

/// Appends the last `width` decimal digits of `n` to `out`.
pub fn push_padded(out: &mut String, n: u128, width: u32)
    ensures
        final(out)@ == old(out)@ + padded(n as nat, width as nat),
    decreases width,
{
    if width > 0 {
        push_padded(out, n / 10, width - 1);
        out.push(digit_char((n % 10) as u8));
    }
    assert(final(out)@ =~= old(out)@ + padded(n as nat, width as nat));
}

/// The first seven powers of ten.
pub proof fn lemma_pow10_values()
    ensures
        pow10(0) == 1,
        pow10(1) == 10,
        pow10(2) == 100,
        pow10(3) == 1_000,
        pow10(4) == 10_000,
        pow10(5) == 100_000,
        pow10(6) == 1_000_000,
{
    reveal_with_fuel(pow10, 8);
}

/// Ten to the power `k`, for `k` up to six.
pub fn pow10_small(k: u32) -> (r: u128)
    requires
        k <= 6,
    ensures
        r == pow10(k as nat),
        1 <= r <= 1_000_000,
{
    proof {
        lemma_pow10_values();
    }
    if k == 0 {
        1
    } else if k == 1 {
        10
    } else if k == 2 {
        100
    } else if k == 3 {
        1_000
    } else if k == 4 {
        10_000
    } else if k == 5 {
        100_000
    } else {
        1_000_000
    }
}

/// `n / d` rounded to the nearest whole number, ties to the even neighbour.
pub fn div_round_half_even(n: u128, d: u128) -> (r: u128)
    requires
        0 < d <= 1_000_000,
    ensures
        r == round_half_even(n as nat, d as nat),
{
    let q = n / d;
    let r = n % d;
    if 2 * r > d || (2 * r == d && q % 2 == 1) {
        assert(q < u128::MAX) by {
            assert(d >= 2);
            assert(q <= n / 2) by (nonlinear_arith)
                requires
                    q == n / d,
                    d >= 2,
            ;
        }
        q + 1
    } else {
        q
    }
}

/// Appends `micros` millionths, printed with `places` decimal places, to `out`.
pub fn push_fixed(out: &mut String, micros: u128, places: u32)
    requires
        places <= 6,
    ensures
        final(out)@ == old(out)@ + fixed_text(micros as nat, places as nat),
{
    let q = div_round_half_even(micros, pow10_small(6 - places));
    if places == 0 {
        push_decimal(out, q);
    } else {
        let p = pow10_small(places);
        push_decimal(out, q / p);
        out.push('.');
        push_padded(out, q % p, places);
        assert(final(out)@ =~= old(out)@ + fixed_text(micros as nat, places as nat));
    }
}

/// A quantity of `micros` millionths, which may be negative, printed with
/// `places` decimal places: the sign, if any, then the magnitude.
pub open spec fn signed_fixed_text(micros: int, places: nat) -> Seq<char>
    recommends
        places <= 6,
{
    if micros < 0 {
        seq!['-'] + fixed_text((-micros) as nat, places)
    } else {
        fixed_text(micros as nat, places)
    }
}

/// Appends `micros` millionths, negative or not, printed with `places`
/// decimal places, to `out`.
pub fn push_signed_fixed(out: &mut String, micros: i128, places: u32)
    requires
        places <= 6,
        micros > i128::MIN,
    ensures
        final(out)@ == old(out)@ + signed_fixed_text(micros as int, places as nat),
{
    if micros < 0 {
        out.push('-');
        push_fixed(out, (-micros) as u128, places);
        assert(final(out)@ =~= old(out)@ + signed_fixed_text(micros as int, places as nat));
    } else {
        push_fixed(out, micros as u128, places);
    }
}

/// `micros` millionths printed with `places` decimal places, as a string.
pub fn fixed_string(micros: u128, places: u32) -> (out: String)
    requires
        places <= 6,
    ensures
        out@ == fixed_text(micros as nat, places as nat),
{
    let mut out = String::new();
    push_fixed(&mut out, micros, places);
    assert(Seq::<char>::empty() + fixed_text(micros as nat, places as nat) =~= fixed_text(
        micros as nat,
        places as nat,
    ));
    out
}

} // verus!
