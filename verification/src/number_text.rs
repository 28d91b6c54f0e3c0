//! Decimal text as a number.
//!
//! A number is written as digits, then optionally a point and more digits,
//! then optionally `e` or `E`, an optional sign and the digits of an
//! exponent. A price is read with every digit it is written with. An amount
//! is read in micro-units, and what it has below a whole micro-unit is cut
//! off. A text of any other shape and an amount too large for its type give
//! nothing.

use vstd::prelude::*;

verus! {

pub const DIGIT_ZERO: u8 = 48;

pub const DIGIT_NINE: u8 = 57;

pub const POINT: u8 = 46;

pub const PLUS: u8 = 43;

pub const MINUS: u8 = 45;

pub const SMALL_E: u8 = 101;

pub const CAPITAL_E: u8 = 69;

/// Decimal places of a micro-unit.
pub const MICRO_PLACES: u8 = 6;

pub open spec fn is_digit(b: u8) -> bool {
    DIGIT_ZERO <= b <= DIGIT_NINE
}

pub open spec fn digit_value(b: u8) -> nat
    recommends
        is_digit(b),
{
    (b - DIGIT_ZERO) as nat
}

/// The number that a run of digits writes.
pub open spec fn digits_value(s: Seq<u8>) -> nat
    decreases s.len(),
{
    if s.len() == 0 {
        0
    } else {
        digits_value(s.drop_last()) * 10 + digit_value(s.last())
    }
}

/// Where the run of digits that begins at `from` ends.
pub open spec fn digits_end(s: Seq<u8>, from: int) -> int
    decreases s.len() - from,
{
    if 0 <= from < s.len() && is_digit(s[from]) {
        digits_end(s, from + 1)
    } else {
        from
    }
}

/// The places that part a number's text: the whole digits end at
/// `whole_end`, the digits behind the point run from `fraction_start` to
/// `fraction_end`, those of the exponent from `exponent_start` to
/// `exponent_end`.
pub struct NumberShape {
    pub whole_end: int,
    pub fraction_start: int,
    pub fraction_end: int,
    pub exponent_negative: bool,
    pub exponent_start: int,
    pub exponent_end: int,
}

pub open spec fn has_point(s: Seq<u8>, at: int) -> bool {
    0 <= at < s.len() && s[at] == POINT
}

pub open spec fn has_exponent_mark(s: Seq<u8>, at: int) -> bool {
    0 <= at < s.len() && (s[at] == SMALL_E || s[at] == CAPITAL_E)
}

pub open spec fn has_sign(s: Seq<u8>, at: int) -> bool {
    0 <= at < s.len() && (s[at] == PLUS || s[at] == MINUS)
}

/// The shape of `s`, if it is a number's text from end to end.
pub open spec fn shape_of(s: Seq<u8>) -> Option<NumberShape> {
    let whole_end = digits_end(s, 0);
    let fraction_start = if has_point(s, whole_end) {
        whole_end + 1
    } else {
        whole_end
    };
    let fraction_end = digits_end(s, fraction_start);
    let marked = has_exponent_mark(s, fraction_end);
    let signed = marked && has_sign(s, fraction_end + 1);
    let exponent_start = if signed {
        fraction_end + 2
    } else if marked {
        fraction_end + 1
    } else {
        fraction_end
    };
    let exponent_end = digits_end(s, exponent_start);
    if whole_end == 0 || (has_point(s, whole_end) && fraction_end == fraction_start) || (marked
        && exponent_end == exponent_start) || exponent_end != s.len() {
        None
    } else {
        Some(
            NumberShape {
                whole_end,
                fraction_start,
                fraction_end,
                exponent_negative: signed && s[fraction_end + 1] == MINUS,
                exponent_start,
                exponent_end,
            },
        )
    }
}

/// Every digit of the number, those before the point and those behind it.
pub open spec fn mantissa(s: Seq<u8>, shape: NumberShape) -> Seq<u8> {
    s.subrange(0, shape.whole_end) + s.subrange(shape.fraction_start, shape.fraction_end)
}

/// The exponent with its sign; zero where none is written.
pub open spec fn exponent(s: Seq<u8>, shape: NumberShape) -> int {
    let e = digits_value(s.subrange(shape.exponent_start, shape.exponent_end));
    if shape.exponent_negative {
        -e
    } else {
        e as int
    }
}

/// The first `count` digits of `digits` continued by zeros without end.
pub open spec fn leading_digits(digits: Seq<u8>, count: int) -> Seq<u8> {
    Seq::new(
        if count > 0 {
            count as nat
        } else {
            0
        },
        |i: int|
            if i < digits.len() {
                digits[i]
            } else {
                DIGIT_ZERO
            },
    )
}

/// How many leading digits of the mantissa make up the count of
/// micro-units: the whole digits, six more, and as many more or fewer as
/// the exponent says.
pub open spec fn micro_digit_count(s: Seq<u8>, shape: NumberShape) -> int {
    shape.whole_end + MICRO_PLACES + exponent(s, shape)
}

/// The amount that `s` writes, in micro-units: the written number times a
/// million, with what lies below a whole micro-unit cut off. There is none
/// where `s` is no number or the amount does not fit its type.
pub open spec fn micros_spec(s: Seq<u8>) -> Option<u64> {
    match shape_of(s) {
        None => None,
        Some(shape) => {
            let v = digits_value(
                leading_digits(mantissa(s, shape), micro_digit_count(s, shape)),
            );
            if v <= u64::MAX {
                Some(v as u64)
            } else {
                None
            }
        },
    }
}

/// A number with every digit it was written with: `mantissa` times ten to
/// the power of `exponent`.
#[derive(Clone, Copy, Debug, PartialEq, Eq, Structural)]
pub struct Decimal {
    pub mantissa: u64,
    pub exponent: i8,
}

/// What a text was read as.
#[derive(Clone, Copy, Debug, PartialEq, Eq, Structural)]
pub enum Reading {
    /// The number that the text writes.
    Number(Decimal),
    /// The text writes a number that has more digits, or a larger or
    /// smaller exponent, than a `Decimal` holds.
    OutOfRange,
    /// The text is no number.
    NoNumber,
}

/// The power of ten that the digits of the mantissa are to be taken at: the
/// written exponent, less one for each digit behind the point.
pub open spec fn digit_exponent(s: Seq<u8>, shape: NumberShape) -> int {
    exponent(s, shape) - (shape.fraction_end - shape.fraction_start)
}

/// What `s` is read as. Zero is held however it is written.
pub open spec fn reading_spec(s: Seq<u8>) -> Reading {
    match shape_of(s) {
        None => Reading::NoNumber,
        Some(shape) => {
            let m = digits_value(mantissa(s, shape));
            let e = digit_exponent(s, shape);
            if m == 0 {
                Reading::Number(Decimal { mantissa: 0, exponent: 0 })
            } else if m <= u64::MAX && i8::MIN <= e <= i8::MAX {
                Reading::Number(Decimal { mantissa: m as u64, exponent: e as i8 })
            } else {
                Reading::OutOfRange
            }
        },
    }
}

/// Ten to the power of `k`.
pub open spec fn pow10(k: nat) -> nat
    decreases k,
{
    if k == 0 {
        1
    } else {
        10 * pow10((k - 1) as nat)
    }
}

/// Taking `k` digits more than there are multiplies by ten to the `k`.
pub proof fn more_digits_multiply(digits: Seq<u8>, k: nat)
    ensures
        digits_value(leading_digits(digits, (digits.len() + k) as int)) == digits_value(digits) * pow10(
            k,
        ),
    decreases k,
{
    if k == 0 {
        assert(leading_digits(digits, (digits.len() + 0) as int) =~= digits);
        assert(pow10(0) == 1);
    } else {
        let longer = leading_digits(digits, (digits.len() + k) as int);
        let shorter = leading_digits(digits, (digits.len() + k - 1) as int);
        more_digits_multiply(digits, (k - 1) as nat);
        assert(longer.drop_last() =~= shorter);
        assert(longer.last() == DIGIT_ZERO);
        assert(digits_value(longer) == digits_value(shorter) * 10);
        assert(pow10(k) == 10 * pow10((k - 1) as nat));
        assert(digits_value(digits) * pow10((k - 1) as nat) * 10 == digits_value(digits) * (10
            * pow10((k - 1) as nat))) by (nonlinear_arith);
    }
}

/// Taking `k` digits fewer than there are divides by ten to the `k` and
/// drops the remainder.
pub proof fn fewer_digits_divide(digits: Seq<u8>, k: nat)
    requires
        k <= digits.len(),
        forall|i: int| 0 <= i < digits.len() ==> is_digit(#[trigger] digits[i]),
    ensures
        digits_value(leading_digits(digits, digits.len() - k)) == digits_value(digits) / pow10(
            k,
        ),
    decreases k,
{
    if k == 0 {
        assert(leading_digits(digits, digits.len() - 0) =~= digits);
        assert(pow10(0) == 1);
    } else {
        let longer = leading_digits(digits, digits.len() - (k - 1));
        let shorter = leading_digits(digits, digits.len() - k);
        fewer_digits_divide(digits, (k - 1) as nat);
        assert(longer.drop_last() =~= shorter);
        assert(is_digit(longer.last()));
        let p = pow10((k - 1) as nat);
        lemma_pow10_positive((k - 1) as nat);
        assert(digits_value(longer) / 10 == digits_value(shorter));
        vstd::arithmetic::div_mod::lemma_div_denominator(digits_value(digits) as int, p as int, 10);
        assert(pow10(k) == 10 * p);
        assert(p * 10 == 10 * p) by (nonlinear_arith);
        assert(digits_value(shorter) == (digits_value(digits) as int / p as int) / 10);
    }
}

/// The run of digits that begins at `from` ends within the text, and holds
/// digits only.
pub proof fn lemma_digits_end(s: Seq<u8>, from: int)
    requires
        0 <= from <= s.len(),
    ensures
        from <= digits_end(s, from) <= s.len(),
        forall|i: int| from <= i < digits_end(s, from) ==> is_digit(#[trigger] s[i]),
    decreases s.len() - from,
{
    if from < s.len() && is_digit(s[from]) {
        lemma_digits_end(s, from + 1);
    }
}

/// A run of digits writes a number below ten to the power of its length.
pub proof fn lemma_digits_below_power(digits: Seq<u8>)
    requires
        forall|i: int| 0 <= i < digits.len() ==> is_digit(#[trigger] digits[i]),
    ensures
        digits_value(digits) < pow10(digits.len()),
    decreases digits.len(),
{
    if digits.len() > 0 {
        lemma_digits_below_power(digits.drop_last());
        assert(is_digit(digits.last()));
        assert(pow10(digits.len()) == 10 * pow10((digits.len() - 1) as nat));
    }
}

/// The written number times a million, cut to a whole number: the digits
/// of the mantissa as one number, times or over the power of ten that the
/// exponent, the digits behind the point and the six places of a micro-unit
/// leave.
pub open spec fn written_micros(s: Seq<u8>, shape: NumberShape) -> nat {
    let m = digits_value(mantissa(s, shape));
    let e = digit_exponent(s, shape) + MICRO_PLACES;
    if e >= 0 {
        m * pow10(e as nat)
    } else {
        m / pow10((-e) as nat)
    }
}

/// An amount is read as the written number times a million, cut to a whole
/// micro-unit, wherever that fits the amount type.
pub proof fn micros_are_the_written_number(s: Seq<u8>)
    ensures
        match shape_of(s) {
            None => micros_spec(s) is None,
            Some(shape) => micros_spec(s) == if written_micros(s, shape) <= u64::MAX {
                Some(written_micros(s, shape) as u64)
            } else {
                None
            },
        },
{
    if let Some(shape) = shape_of(s) {
        lemma_digits_end(s, 0);
        lemma_digits_end(s, shape.fraction_start);
        let digits = mantissa(s, shape);
        let length = digits.len();
        assert(length == shape.whole_end + (shape.fraction_end - shape.fraction_start));
        assert forall|i: int| 0 <= i < digits.len() implies is_digit(#[trigger] digits[i]) by {
            if i < shape.whole_end {
                assert(digits[i] == s[i]);
            } else {
                assert(digits[i] == s[shape.fraction_start + (i - shape.whole_end)]);
            }
        }
        let e = digit_exponent(s, shape) + MICRO_PLACES;
        assert(micro_digit_count(s, shape) == length + e);
        if e >= 0 {
            more_digits_multiply(digits, e as nat);
        } else if -e <= length {
            fewer_digits_divide(digits, (-e) as nat);
        } else {
            assert(leading_digits(digits, length + e) =~= Seq::<u8>::empty());
            lemma_digits_below_power(digits);
            lemma_pow10_grows(length, (-e) as nat);
            vstd::arithmetic::div_mod::lemma_basic_div(
                digits_value(digits) as int,
                pow10((-e) as nat) as int,
            );
        }
    }
}

/// The count of whole micro-units in a decimal: the decimal times a
/// million, cut.
pub open spec fn micros_of_decimal(d: Decimal) -> nat {
    let e = d.exponent + MICRO_PLACES;
    if e >= 0 {
        d.mantissa as nat * pow10(e as nat)
    } else {
        d.mantissa as nat / pow10((-e) as nat)
    }
}

/// Where a text is read as a decimal, the amount read from the same text is
/// that decimal in micro-units, cut to a whole one, wherever that fits the
/// amount type.
pub proof fn amount_is_the_reading_cut(s: Seq<u8>)
    ensures
        reading_spec(s) matches Reading::Number(d) ==> micros_spec(s) == if micros_of_decimal(d)
            <= u64::MAX {
            Some(micros_of_decimal(d) as u64)
        } else {
            None
        },
{
    micros_are_the_written_number(s);
    if let Some(shape) = shape_of(s) {
        if digits_value(mantissa(s, shape)) == 0 {
            let e = digit_exponent(s, shape) + MICRO_PLACES;
            if e >= 0 {
                assert(0 * pow10(e as nat) == 0) by (nonlinear_arith);
            } else {
                lemma_pow10_positive((-e) as nat);
                vstd::arithmetic::div_mod::lemma_basic_div(0, pow10((-e) as nat) as int);
            }
            assert(0 * pow10(MICRO_PLACES as nat) == 0) by (nonlinear_arith);
        }
    }
}

/// A power of ten is at least one.
pub proof fn lemma_pow10_positive(k: nat)
    ensures
        pow10(k) > 0,
    decreases k,
{
    if k > 0 {
        lemma_pow10_positive((k - 1) as nat);
    }
}

/// Times ten to the power of zero is times one.
pub proof fn lemma_times_pow10_zero(x: int)
    ensures
        x * pow10(0) == x,
        x / (pow10(0) as int) == x,
{
    assert(pow10(0) == 1);
}

/// Times the next power of ten is ten times as much.
pub proof fn lemma_times_pow10_next(x: int, j: nat)
    ensures
        x * pow10(j + 1) == x * pow10(j) * 10,
{
    assert(pow10(j + 1) == 10 * pow10(j));
    assert(x * (10 * pow10(j)) == x * pow10(j) * 10) by (nonlinear_arith);
}

/// A larger exponent gives a larger power of ten, or the same.
pub proof fn lemma_pow10_grows(a: nat, b: nat)
    requires
        a <= b,
    ensures
        pow10(a) <= pow10(b),
    decreases b,
{
    if a < b {
        lemma_pow10_grows(a, (b - 1) as nat);
    }
}

/// Past this bound an exponent is only known to be large.
pub const EXPONENT_CAP: u128 = 1267650600228229401496703205376;

pub open spec fn capped(v: nat) -> nat {
    if v < EXPONENT_CAP {
        v
    } else {
        EXPONENT_CAP as nat
    }
}

proof fn lemma_value_step(s: Seq<u8>, k: int)
    requires
        0 <= k < s.len(),
    ensures
        digits_value(s.take(k + 1)) == digits_value(s.take(k)) * 10 + digit_value(s[k]),
{
    assert(s.take(k + 1).drop_last() =~= s.take(k));
}

proof fn lemma_prefix_value(s: Seq<u8>, k: int)
    requires
        0 <= k <= s.len(),
    ensures
        digits_value(s.take(k)) <= digits_value(s),
    decreases s.len() - k,
{
    if k < s.len() {
        lemma_value_step(s, k);
        lemma_prefix_value(s, k + 1);
    } else {
        assert(s.take(k) =~= s);
    }
}

proof fn lemma_zero_tail(s: Seq<u8>, k: int)
    requires
        0 <= k <= s.len(),
        digits_value(s.take(k)) == 0,
        forall|i: int| k <= i < s.len() ==> s[i] == DIGIT_ZERO,
    ensures
        digits_value(s) == 0,
    decreases s.len() - k,
{
    if k < s.len() {
        lemma_value_step(s, k);
        lemma_zero_tail(s, k + 1);
    } else {
        assert(s.take(k) =~= s);
    }
}

fn scan_digits(text: &[u8], from: usize) -> (end: usize)
    requires
        from <= text@.len(),
    ensures
        from <= end <= text@.len(),
        end == digits_end(text@, from as int),
        forall|i: int| from <= i < end ==> is_digit(#[trigger] text@[i]),
{
    let mut i: usize = from;
    while i < text.len() && text[i] >= DIGIT_ZERO && text[i] <= DIGIT_NINE
        invariant
            from <= i <= text@.len(),
            digits_end(text@, from as int) == digits_end(text@, i as int),
            forall|j: int| from <= j < i ==> is_digit(#[trigger] text@[j]),
        decreases text@.len() - i,
    {
        i += 1;
    }
    i
}

fn read_capped(text: &[u8], start: usize, end: usize) -> (r: u128)
    requires
        start <= end <= text@.len(),
        forall|i: int| start <= i < end ==> is_digit(#[trigger] text@[i]),
    ensures
        r == capped(digits_value(text@.subrange(start as int, end as int))),
{
    let ghost run = text@.subrange(start as int, end as int);
    let mut value: u128 = 0;
    let mut i: usize = start;
    while i < end
        invariant
            start <= i <= end <= text@.len(),
            run == text@.subrange(start as int, end as int),
            forall|j: int| start <= j < end ==> is_digit(#[trigger] text@[j]),
            value == capped(digits_value(run.take(i - start))),
        decreases end - i,
    {
        proof {
            lemma_value_step(run, i - start);
            assert(is_digit(text@[i as int]));
        }
        if value < EXPONENT_CAP {
            value = value * 10 + (text[i] - DIGIT_ZERO) as u128;
            if value > EXPONENT_CAP {
                value = EXPONENT_CAP;
            }
        }
        i += 1;
    }
    assert(run.take(end - start) =~= run);
    value
}

/// The places that `read_shape` found.
struct Marks {
    whole_end: usize,
    fraction_start: usize,
    fraction_end: usize,
    exponent_negative: bool,
    exponent_start: usize,
    exponent_end: usize,
}

impl Marks {
    spec fn shape(self) -> NumberShape {
        NumberShape {
            whole_end: self.whole_end as int,
            fraction_start: self.fraction_start as int,
            fraction_end: self.fraction_end as int,
            exponent_negative: self.exponent_negative,
            exponent_start: self.exponent_start as int,
            exponent_end: self.exponent_end as int,
        }
    }

    spec fn marks(self, s: Seq<u8>) -> bool {
        &&& shape_of(s) == Some(self.shape())
        &&& 0 < self.whole_end <= self.fraction_start <= self.fraction_end <= self.exponent_start
            <= self.exponent_end == s.len()
        &&& forall|i: int| 0 <= i < self.whole_end ==> is_digit(#[trigger] s[i])
        &&& forall|i: int| self.fraction_start <= i < self.fraction_end ==> is_digit(#[trigger] s[i])
        &&& forall|i: int| self.exponent_start <= i < self.exponent_end ==> is_digit(#[trigger] s[i])
    }

    spec fn length(self) -> int {
        self.whole_end + (self.fraction_end - self.fraction_start)
    }
}

fn read_shape(text: &[u8]) -> (r: Option<Marks>)
    ensures
        match r {
            Some(marks) => marks.marks(text@),
            None => shape_of(text@) is None,
        },
{
    let n = text.len();
    let whole_end = scan_digits(text, 0);
    if whole_end == 0 {
        return None;
    }
    let pointed = whole_end < n && text[whole_end] == POINT;
    let fraction_start = if pointed {
        whole_end + 1
    } else {
        whole_end
    };
    let fraction_end = scan_digits(text, fraction_start);
    if pointed && fraction_end == fraction_start {
        return None;
    }
    let marked = fraction_end < n && (text[fraction_end] == SMALL_E || text[fraction_end]
        == CAPITAL_E);
    let signed = marked && fraction_end + 1 < n && (text[fraction_end + 1] == PLUS
        || text[fraction_end + 1] == MINUS);
    let exponent_start = if signed {
        fraction_end + 2
    } else if marked {
        fraction_end + 1
    } else {
        fraction_end
    };
    let exponent_end = scan_digits(text, exponent_start);
    if (marked && exponent_end == exponent_start) || exponent_end != n {
        return None;
    }
    Some(
        Marks {
            whole_end,
            fraction_start,
            fraction_end,
            exponent_negative: signed && text[fraction_end + 1] == MINUS,
            exponent_start,
            exponent_end,
        },
    )
}

/// The digit at place `k` of the mantissa.
fn digit_at(text: &[u8], marks: &Marks, k: usize) -> (r: u8)
    requires
        marks.marks(text@),
        k < marks.length(),
    ensures
        r <= 9,
        mantissa(text@, marks.shape())[k as int] == r + DIGIT_ZERO,
        r == digit_value(mantissa(text@, marks.shape())[k as int]),
{
    if k < marks.whole_end {
        text[k] - DIGIT_ZERO
    } else {
        text[marks.fraction_start + (k - marks.whole_end)] - DIGIT_ZERO
    }
}

/// Reads an amount's text as a count of micro-units.
pub fn parse_micros(text: &[u8]) -> (r: Option<u64>)
    ensures
        r == micros_spec(text@),
{
    let marks = match read_shape(text) {
        Some(marks) => marks,
        None => {
            return None;
        },
    };
    let ghost shape = marks.shape();
    let ghost digits = mantissa(text@, shape);
    let ghost count = micro_digit_count(text@, shape);
    let ghost target = leading_digits(digits, count);
    let length: usize = marks.whole_end + (marks.fraction_end - marks.fraction_start);
    assert(digits.len() == length);
    let magnitude = read_capped(text, marks.exponent_start, marks.exponent_end);
    let base: u128 = marks.whole_end as u128 + MICRO_PLACES as u128;
    let reach: u128 = if marks.exponent_negative {
        if magnitude >= base {
            0
        } else {
            base - magnitude
        }
    } else {
        base + magnitude
    };
    assert(reach == count || (count <= 0 && reach == 0) || (reach >= EXPONENT_CAP && count
        >= reach));
    if reach == 0 {
        assert(target =~= Seq::<u8>::empty());
        return Some(0);
    }
    let mut value: u64 = 0;
    let mut k: u128 = 0;
    while k < reach
        invariant
            k <= reach <= count,
            reach == count || reach >= EXPONENT_CAP,
            target == leading_digits(digits, count),
            digits == mantissa(text@, shape),
            shape == marks.shape(),
            marks.marks(text@),
            count == micro_digit_count(text@, shape),
            digits.len() == length,
            length == marks.length(),
            value == digits_value(target.take(k as int)),
            k <= length || value >= k - length,
        decreases reach - k,
    {
        if k >= length as u128 && value == 0 {
            proof {
                lemma_zero_tail(target, k as int);
            }
            return Some(0);
        }
        let digit: u8 = if k < length as u128 {
            digit_at(text, &marks, k as usize)
        } else {
            0
        };
        proof {
            lemma_value_step(target, k as int);
            assert(digit == digit_value(target[k as int]));
        }
        if value > (u64::MAX - digit as u64) / 10 {
            proof {
                lemma_prefix_value(target, k + 1);
            }
            return None;
        }
        value = value * 10 + digit as u64;
        k += 1;
    }
    assert(target.take(k as int) =~= target);
    Some(value)
}

/// Reads a number's text with every digit it is written with.
pub fn parse_decimal(text: &[u8]) -> (r: Reading)
    ensures
        r == reading_spec(text@),
{
    let marks = match read_shape(text) {
        Some(marks) => marks,
        None => {
            return Reading::NoNumber;
        },
    };
    let ghost shape = marks.shape();
    let ghost digits = mantissa(text@, shape);
    let length: usize = marks.whole_end + (marks.fraction_end - marks.fraction_start);
    assert(digits.len() == length);
    let mut value: u64 = 0;
    let mut k: usize = 0;
    while k < length
        invariant
            k <= length,
            digits == mantissa(text@, shape),
            shape == marks.shape(),
            marks.marks(text@),
            digits.len() == length,
            length == marks.length(),
            value == digits_value(digits.take(k as int)),
        decreases length - k,
    {
        let digit = digit_at(text, &marks, k);
        proof {
            lemma_value_step(digits, k as int);
        }
        if value > (u64::MAX - digit as u64) / 10 {
            proof {
                lemma_prefix_value(digits, k + 1);
            }
            return Reading::OutOfRange;
        }
        value = value * 10 + digit as u64;
        k += 1;
    }
    assert(digits.take(k as int) =~= digits);
    if value == 0 {
        return Reading::Number(Decimal { mantissa: 0, exponent: 0 });
    }
    let magnitude = read_capped(text, marks.exponent_start, marks.exponent_end);
    let places: u128 = (marks.fraction_end - marks.fraction_start) as u128;
    if marks.exponent_negative {
        let down: u128 = magnitude + places;
        if down > 128 {
            Reading::OutOfRange
        } else {
            Reading::Number(Decimal { mantissa: value, exponent: (0 - down as i16) as i8 })
        }
    } else if magnitude >= places {
        let up: u128 = magnitude - places;
        if up > 127 {
            Reading::OutOfRange
        } else {
            Reading::Number(Decimal { mantissa: value, exponent: up as i8 })
        }
    } else {
        let down: u128 = places - magnitude;
        if down > 128 {
            Reading::OutOfRange
        } else {
            Reading::Number(Decimal { mantissa: value, exponent: (0 - down as i16) as i8 })
        }
    }
}

} // verus!
