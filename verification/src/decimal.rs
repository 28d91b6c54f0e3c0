//! Amounts, rates and prices as decimal text.

use vstd::prelude::*;
use vstd::string::StringExecFns;
use crate::holding::Price;
use crate::measure::{Amount, Change};
use crate::number_text::{Decimal, lemma_pow10_positive, lemma_times_pow10_zero, pow10};

verus! {

/// Micro-units in one unit of the currency.
pub const MICROS_PER_UNIT: u64 = 1000000;

/// The character of one decimal digit.
pub open spec fn digit_char(d: nat) -> char
    recommends
        d < 10,
{
    if d == 0 {
        '0'
    } else if d == 1 {
        '1'
    } else if d == 2 {
        '2'
    } else if d == 3 {
        '3'
    } else if d == 4 {
        '4'
    } else if d == 5 {
        '5'
    } else if d == 6 {
        '6'
    } else if d == 7 {
        '7'
    } else if d == 8 {
        '8'
    } else {
        '9'
    }
}

/// The decimal digits of `n`, without leading zeros.
pub open spec fn digits_of(n: nat) -> Seq<char>
    decreases n,
{
    if n < 10 {
        seq![digit_char(n)]
    } else {
        digits_of(n / 10).push(digit_char(n % 10))
    }
}

/// The last `width` decimal digits of `n`, with leading zeros where `n` has
/// fewer.
pub open spec fn padded_digits(n: nat, width: nat) -> Seq<char>
    decreases width,
{
    if width == 0 {
        Seq::empty()
    } else {
        padded_digits(n / 10, (width - 1) as nat).push(digit_char(n % 10))
    }
}

/// A count of millionths as whole numbers with six decimals.
pub open spec fn micros_text(v: nat) -> Seq<char> {
    digits_of(v / (MICROS_PER_UNIT as nat)) + seq!['.'] + padded_digits(
        v % (MICROS_PER_UNIT as nat),
        6,
    )
}

/// A count of hundredths as whole numbers with two decimals.
pub open spec fn hundredths_text(v: nat) -> Seq<char> {
    digits_of(v / 100) + seq!['.'] + padded_digits(v % 100, 2)
}

/// A count of millionths in hundredths, rounded to the nearest, a half
/// upwards.
pub open spec fn rounded_cents(v: nat) -> nat {
    (v + 5000) / 10000
}

/// The text that stands for an undefined result.
pub open spec fn undefined_text() -> Seq<char> {
    "NaN"@
}

/// An amount in full: units with all six decimals.
pub open spec fn amount_text_spec(a: Amount) -> Seq<char> {
    match a {
        Amount::Finite(v) => micros_text(v as nat),
        Amount::Undefined => undefined_text(),
    }
}

/// An amount as the summary shows it: rounded to two decimals.
pub open spec fn amount_display_spec(a: Amount) -> Seq<char> {
    match a {
        Amount::Finite(v) => hundredths_text(rounded_cents(v as nat)),
        Amount::Undefined => undefined_text(),
    }
}

/// The magnitude of a change.
pub open spec fn magnitude_spec(r: i128) -> nat {
    if r < 0 {
        (-r) as nat
    } else {
        r as nat
    }
}

/// A rate in full: percent with all six decimals, with a minus sign in
/// front of a rate below zero.
pub open spec fn rate_text_spec(c: Change) -> Seq<char> {
    match c {
        Change::Finite(r) => if r < 0 {
            seq!['-'] + micros_text(magnitude_spec(r))
        } else {
            micros_text(magnitude_spec(r))
        },
        Change::Undefined => undefined_text(),
    }
}

/// A rate as the summary shows it: percent rounded to two decimals, a half
/// away from zero, with a minus sign in front of a rate below zero.
pub open spec fn rate_display_spec(c: Change) -> Seq<char> {
    match c {
        Change::Finite(r) => if r < 0 {
            seq!['-'] + hundredths_text(rounded_cents(magnitude_spec(r)))
        } else {
            hundredths_text(rounded_cents(magnitude_spec(r)))
        },
        Change::Undefined => undefined_text(),
    }
}

/// This many zeros.
pub open spec fn zeros(n: nat) -> Seq<char> {
    Seq::new(n, |i: int| '0')
}

/// A decimal written out in full, without an exponent: the digits of the
/// mantissa with zeros behind them, or with the point set among them.
pub open spec fn decimal_text_spec(d: Decimal) -> Seq<char> {
    if d.exponent >= 0 {
        if d.mantissa == 0 {
            digits_of(0)
        } else {
            digits_of(d.mantissa as nat) + zeros(d.exponent as nat)
        }
    } else {
        digits_of(d.mantissa as nat / pow10((-d.exponent) as nat)) + seq!['.'] + padded_digits(
            d.mantissa as nat,
            (-d.exponent) as nat,
        )
    }
}

/// A price written out in full.
pub open spec fn written_price_spec(p: Price) -> Seq<char> {
    match p {
        Price::Known(d) => decimal_text_spec(d),
        Price::OutOfRange => undefined_text(),
    }
}

fn digit_str(d: u8) -> (r: &'static str)
    requires
        d < 10,
    ensures
        r@ == seq![digit_char(d as nat)],
{
    proof {
        reveal_strlit("0");
        reveal_strlit("1");
        reveal_strlit("2");
        reveal_strlit("3");
        reveal_strlit("4");
        reveal_strlit("5");
        reveal_strlit("6");
        reveal_strlit("7");
        reveal_strlit("8");
        reveal_strlit("9");
    }
    let r = match d {
        0 => "0",
        1 => "1",
        2 => "2",
        3 => "3",
        4 => "4",
        5 => "5",
        6 => "6",
        7 => "7",
        8 => "8",
        _ => "9",
    };
    assert(r@ =~= seq![digit_char(d as nat)]);
    r
}

fn push_digits(out: &mut String, n: u128)
    ensures
        final(out)@ == old(out)@ + digits_of(n as nat),
    decreases n,
{
    if n >= 10 {
        push_digits(out, n / 10);
    }
    out.append(digit_str((n % 10) as u8));
    assert(final(out)@ =~= old(out)@ + digits_of(n as nat));
}

fn push_padded(out: &mut String, n: u128, width: u32)
    ensures
        final(out)@ == old(out)@ + padded_digits(n as nat, width as nat),
    decreases width,
{
    if width > 0 {
        push_padded(out, n / 10, width - 1);
        out.append(digit_str((n % 10) as u8));
    }
    assert(final(out)@ =~= old(out)@ + padded_digits(n as nat, width as nat));
}

fn push_hundredths(out: &mut String, v: u128)
    ensures
        final(out)@ == old(out)@ + hundredths_text(v as nat),
{
    proof {
        reveal_strlit(".");
        assert("."@ =~= seq!['.']);
    }
    push_digits(out, v / 100);
    out.append(".");
    push_padded(out, v % 100, 2);
    assert(final(out)@ =~= old(out)@ + hundredths_text(v as nat));
}

fn push_micros(out: &mut String, v: u128)
    ensures
        final(out)@ == old(out)@ + micros_text(v as nat),
{
    proof {
        reveal_strlit(".");
        assert("."@ =~= seq!['.']);
    }
    push_digits(out, v / (MICROS_PER_UNIT as u128));
    out.append(".");
    push_padded(out, v % (MICROS_PER_UNIT as u128), 6);
    assert(final(out)@ =~= old(out)@ + micros_text(v as nat));
}

fn magnitude(r: i128) -> (m: u128)
    ensures
        m == magnitude_spec(r),
{
    if r == i128::MIN {
        170141183460469231731687303715884105728u128
    } else if r < 0 {
        (-r) as u128
    } else {
        r as u128
    }
}

/// Writes an amount out in full.
pub fn amount_text(a: Amount) -> (r: String)
    ensures
        r@ == amount_text_spec(a),
{
    match a {
        Amount::Finite(v) => {
            let mut out = String::new();
            push_micros(&mut out, v as u128);
            assert(out@ =~= micros_text(v as nat));
            out
        },
        Amount::Undefined => String::from_str("NaN"),
    }
}

/// Writes an amount out as the summary shows it.
pub fn amount_display(a: Amount) -> (r: String)
    ensures
        r@ == amount_display_spec(a),
{
    match a {
        Amount::Finite(v) => {
            let mut out = String::new();
            push_hundredths(&mut out, (v as u128 + 5000) / 10000);
            assert(out@ =~= hundredths_text(rounded_cents(v as nat)));
            out
        },
        Amount::Undefined => String::from_str("NaN"),
    }
}

fn sign(r: i128) -> (out: String)
    ensures
        out@ == if r < 0 {
            seq!['-']
        } else {
            Seq::<char>::empty()
        },
{
    proof {
        reveal_strlit("-");
        assert("-"@ =~= seq!['-']);
    }
    if r < 0 {
        String::from_str("-")
    } else {
        String::new()
    }
}

/// Writes a rate out in full.
pub fn rate_text(c: Change) -> (r: String)
    ensures
        r@ == rate_text_spec(c),
{
    match c {
        Change::Finite(r) => {
            let mut out = sign(r);
            push_micros(&mut out, magnitude(r));
            assert(out@ =~= rate_text_spec(c));
            out
        },
        Change::Undefined => String::from_str("NaN"),
    }
}

/// Writes a rate out as the summary shows it.
pub fn rate_display(c: Change) -> (r: String)
    ensures
        r@ == rate_display_spec(c),
{
    match c {
        Change::Finite(r) => {
            let mut out = sign(r);
            let m = magnitude(r);
            let hundredths: u128 = m / 10000 + (if m % 10000 >= 5000 {
                1u128
            } else {
                0u128
            });
            assert(hundredths == rounded_cents(m as nat));
            push_hundredths(&mut out, hundredths);
            assert(out@ =~= rate_display_spec(c));
            out
        },
        Change::Undefined => String::from_str("NaN"),
    }
}

/// Writes a decimal out in full.
pub fn decimal_text(d: Decimal) -> (r: String)
    ensures
        r@ == decimal_text_spec(d),
{
    let mut out = String::new();
    if d.exponent >= 0 {
        push_digits(&mut out, d.mantissa as u128);
        if d.mantissa != 0 {
            proof {
                reveal_strlit("0");
                assert("0"@ =~= seq!['0']);
                assert(out@ =~= digits_of(d.mantissa as nat) + zeros(0));
            }
            let mut j: i8 = 0;
            while j < d.exponent
                invariant
                    0 <= j <= d.exponent,
                    "0"@ == seq!['0'],
                    out@ == digits_of(d.mantissa as nat) + zeros(j as nat),
                decreases d.exponent - j,
            {
                out.append("0");
                j = j + 1;
                assert(out@ =~= digits_of(d.mantissa as nat) + zeros(j as nat));
            }
        }
        assert(out@ =~= decimal_text_spec(d));
    } else {
        let places: i16 = 0 - d.exponent as i16;
        let mut whole: u64 = d.mantissa;
        let mut j: i16 = 0;
        proof {
            lemma_times_pow10_zero(d.mantissa as int);
        }
        while j < places
            invariant
                0 <= j <= places,
                whole == d.mantissa as nat / pow10(j as nat),
            decreases places - j,
        {
            proof {
                let p = pow10(j as nat);
                lemma_pow10_positive(j as nat);
                assert(pow10((j + 1) as nat) == 10 * p);
                vstd::arithmetic::div_mod::lemma_div_denominator(d.mantissa as int, p as int, 10);
                assert(p * 10 == 10 * p) by (nonlinear_arith);
            }
            whole = whole / 10;
            j = j + 1;
        }
        proof {
            reveal_strlit(".");
            assert("."@ =~= seq!['.']);
        }
        push_digits(&mut out, whole as u128);
        out.append(".");
        push_padded(&mut out, d.mantissa as u128, places as u32);
        assert(out@ =~= decimal_text_spec(d));
    }
    out
}

/// Writes a price out in full.
pub fn written_price(p: Price) -> (r: String)
    ensures
        r@ == written_price_spec(p),
{
    match p {
        Price::Known(d) => decimal_text(d),
        Price::OutOfRange => String::from_str("NaN"),
    }
}

} // verus!
