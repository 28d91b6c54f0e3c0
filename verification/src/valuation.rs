//! The arithmetic of one holding: what it is worth now, and its return.

use vstd::prelude::*;
use crate::holding::{Holding, HoldingView, Price};
use crate::number_text::{
    Decimal,
    lemma_pow10_grows,
    lemma_pow10_positive,
    lemma_times_pow10_next,
    lemma_times_pow10_zero,
    pow10,
};
use crate::measure::{Amount, Change, amount_of};

verus! {

/// Rates are counted in millionths of a percent: a return of 100% is this
/// many units.
pub const RATE_SCALE: u64 = 100000000;

/// Units of a rate in one percent.
pub const RATE_UNITS_PER_PERCENT: u64 = 1000000;

/// `n / d` rounded up, for a positive `d`.
pub open spec fn ceil_div(n: nat, d: nat) -> nat
    recommends
        d > 0,
{
    ((n + d - 1) / (d as int)) as nat
}

/// By how many powers of ten the price stands above the purchase price
/// through the exponents alone.
pub open spec fn exponent_gap(purchase_price: Decimal, price: Decimal) -> int {
    price.exponent - purchase_price.exponent
}

/// The units bought times the price are `value_numerator` over
/// `value_denominator`: investment times price over purchase price, with
/// the powers of ten of both prices brought to one side each.
pub open spec fn value_numerator(investment: u64, purchase_price: Decimal, price: Decimal) -> nat {
    let gap = exponent_gap(purchase_price, price);
    investment as nat * price.mantissa as nat * pow10(
        if gap > 0 {
            gap as nat
        } else {
            0
        },
    )
}

pub open spec fn value_denominator(purchase_price: Decimal, price: Decimal) -> nat {
    let gap = exponent_gap(purchase_price, price);
    purchase_price.mantissa as nat * pow10(
        if gap < 0 {
            (-gap) as nat
        } else {
            0
        },
    )
}

/// What an investment is worth at `price` when it was bought at
/// `purchase_price`: the units bought times the price, cut once, at the
/// end, to a whole micro-unit. Undefined for a purchase price of zero and
/// for a price that is out of range.
pub open spec fn value_spec(investment: u64, purchase_price: Decimal, price: Price) -> Amount {
    match price {
        Price::OutOfRange => Amount::Undefined,
        Price::Known(quoted) => if purchase_price.mantissa == 0 {
            Amount::Undefined
        } else {
            amount_of(
                value_numerator(investment, purchase_price, quoted) as int / value_denominator(
                    purchase_price,
                    quoted,
                ) as int,
            )
        },
    }
}

/// The return on `investment` now worth `value`, in millionths of a percent,
/// rounded away from zero. Undefined for an investment of zero and for an
/// undefined value.
pub open spec fn roi_spec(investment: u64, value: Amount) -> Change {
    match value {
        Amount::Undefined => Change::Undefined,
        Amount::Finite(v) => if investment == 0 {
            Change::Undefined
        } else if v >= investment {
            Change::Finite(ceil_div(((v - investment) * RATE_SCALE) as nat, investment as nat) as i128)
        } else {
            Change::Finite(
                (-(ceil_div(((investment - v) * RATE_SCALE) as nat, investment as nat) as int)) as i128,
            )
        },
    }
}

/// A number past the range of `u128`, over a divisor within that of `u64`,
/// gives a quotient past the range of `u64`.
proof fn lemma_quotient_too_large(n: int, d: int)
    requires
        n > u128::MAX,
        0 < d <= u64::MAX,
    ensures
        n / d > u64::MAX,
{
    let bound = u64::MAX + 1;
    assert(bound * d <= n) by (nonlinear_arith)
        requires
            bound == 0x1_0000_0000_0000_0000,
            0 < d <= 0xffff_ffff_ffff_ffff,
            n > 0xffff_ffff_ffff_ffff_ffff_ffff_ffff_ffff,
    ;
    vstd::arithmetic::div_mod::lemma_div_multiples_vanish(bound, d);
    vstd::arithmetic::div_mod::lemma_div_is_ordered(bound * d, n, d);
    assert(bound * d == d * bound) by (nonlinear_arith);
}

pub fn current_value(investment: u64, purchase_price: Decimal, price: Price) -> (r: Amount)
    ensures
        r == value_spec(investment, purchase_price, price),
{
    let quoted = match price {
        Price::Known(quoted) => quoted,
        Price::OutOfRange => {
            return Amount::Undefined;
        },
    };
    if purchase_price.mantissa == 0 {
        return Amount::Undefined;
    }
    assert(investment as int * quoted.mantissa as int <= u64::MAX as int * u64::MAX as int)
        by (nonlinear_arith);
    let product: u128 = (investment as u128) * (quoted.mantissa as u128);
    let divisor: u128 = purchase_price.mantissa as u128;
    let gap: i16 = quoted.exponent as i16 - purchase_price.exponent as i16;
    let ghost n = value_numerator(investment, purchase_price, quoted) as int;
    let ghost d = value_denominator(purchase_price, quoted) as int;
    if product == 0 {
        proof {
            assert(n == 0) by (nonlinear_arith)
                requires
                    n == product * pow10(
                        if gap > 0 {
                            gap as nat
                        } else {
                            0
                        },
                    ),
                    product == 0,
            ;
            lemma_pow10_positive(
                if gap < 0 {
                    (-gap) as nat
                } else {
                    0
                },
            );
            assert(d > 0) by (nonlinear_arith)
                requires
                    d == divisor * pow10(
                        if gap < 0 {
                            (-gap) as nat
                        } else {
                            0
                        },
                    ),
                    divisor > 0,
                    pow10(
                        if gap < 0 {
                            (-gap) as nat
                        } else {
                            0
                        },
                    ) > 0,
            ;
            vstd::arithmetic::div_mod::lemma_basic_div(0, d);
        }
        return Amount::Finite(0);
    }
    if gap >= 0 {
        proof {
            lemma_times_pow10_zero(divisor as int);
            lemma_times_pow10_zero(product as int);
        }
        assert(d == divisor);
        let mut numerator: u128 = product;
        let mut j: i16 = 0;
        while j < gap
            invariant
                0 <= j <= gap,
                price == Price::Known(quoted),
                purchase_price.mantissa != 0,
                n == value_numerator(investment, purchase_price, quoted),
                d == value_denominator(purchase_price, quoted),
                numerator == product * pow10(j as nat),
                product >= 1,
                n == product * pow10(gap as nat),
                d == divisor,
                0 < divisor <= u64::MAX,
            decreases gap - j,
        {
            if numerator > u128::MAX / 10 {
                proof {
                    lemma_pow10_grows((j + 1) as nat, gap as nat);
                    assert(pow10((j + 1) as nat) == 10 * pow10(j as nat));
                    assert(n >= numerator * 10) by (nonlinear_arith)
                        requires
                            n == product * pow10(gap as nat),
                            numerator == product * pow10(j as nat),
                            pow10((j + 1) as nat) == 10 * pow10(j as nat),
                            pow10((j + 1) as nat) <= pow10(gap as nat),
                            product >= 1,
                    ;
                    lemma_quotient_too_large(n, d);
                }
                return Amount::Undefined;
            }
            proof {
                lemma_times_pow10_next(product as int, j as nat);
            }
            numerator = numerator * 10;
            j = j + 1;
        }
        let quotient: u128 = numerator / divisor;
        if quotient > u64::MAX as u128 {
            Amount::Undefined
        } else {
            Amount::Finite(quotient as u64)
        }
    } else {
        let steps: i16 = -gap;
        proof {
            lemma_times_pow10_zero(divisor as int);
            lemma_times_pow10_zero(product as int);
        }
        assert(n == product);
        let mut denominator: u128 = divisor;
        let mut j: i16 = 0;
        while j < steps
            invariant
                0 <= j <= steps,
                price == Price::Known(quoted),
                purchase_price.mantissa != 0,
                n == value_numerator(investment, purchase_price, quoted),
                d == value_denominator(purchase_price, quoted),
                denominator == divisor * pow10(j as nat),
                denominator >= 1,
                divisor >= 1,
                n == product,
                d == divisor * pow10(steps as nat),
            decreases steps - j,
        {
            proof {
                lemma_times_pow10_next(divisor as int, j as nat);
            }
            if denominator > product / 10 {
                proof {
                    lemma_pow10_grows((j + 1) as nat, steps as nat);
                    assert(d >= denominator * 10) by (nonlinear_arith)
                        requires
                            d == divisor * pow10(steps as nat),
                            denominator * 10 == divisor * pow10((j + 1) as nat),
                            pow10((j + 1) as nat) <= pow10(steps as nat),
                            divisor >= 1,
                    ;
                    vstd::arithmetic::div_mod::lemma_basic_div(n, d);
                }
                return Amount::Finite(0);
            }
            denominator = denominator * 10;
            j = j + 1;
        }
        let quotient: u128 = product / denominator;
        if quotient > u64::MAX as u128 {
            Amount::Undefined
        } else {
            Amount::Finite(quotient as u64)
        }
    }
}

pub fn roi_percent(investment: u64, value: Amount) -> (r: Change)
    ensures
        r == roi_spec(investment, value),
{
    match value {
        Amount::Undefined => Change::Undefined,
        Amount::Finite(v) => {
            if investment == 0 {
                Change::Undefined
            } else if v >= investment {
                assert((v - investment) * RATE_SCALE <= u64::MAX * 100000000) by (nonlinear_arith)
                    requires
                        0 <= v - investment <= u64::MAX,
                        RATE_SCALE == 100000000,
                ;
                let scaled: u128 = ((v - investment) as u128) * (RATE_SCALE as u128);
                let units: u128 = (scaled + (investment as u128 - 1)) / (investment as u128);
                Change::Finite(units as i128)
            } else {
                assert((investment - v) * RATE_SCALE <= u64::MAX * 100000000) by (nonlinear_arith)
                    requires
                        0 <= investment - v <= u64::MAX,
                        RATE_SCALE == 100000000,
                ;
                let scaled: u128 = ((investment - v) as u128) * (RATE_SCALE as u128);
                let units: u128 = (scaled + (investment as u128 - 1)) / (investment as u128);
                Change::Finite(-(units as i128))
            }
        },
    }
}

/// What one holding is worth at one price.
#[derive(Clone, Debug)]
pub struct ValuationRecord {
    pub symbol: String,
    pub current_price: Price,
    pub investment: u64,
    pub current_value: Amount,
    pub roi_percent: Change,
}

/// A record with its symbol as a sequence of characters.
pub struct RecordView {
    pub symbol: Seq<char>,
    pub current_price: Price,
    pub investment: u64,
    pub current_value: Amount,
    pub roi_percent: Change,
}

impl View for ValuationRecord {
    type V = RecordView;

    open spec fn view(&self) -> RecordView {
        RecordView {
            symbol: self.symbol@,
            current_price: self.current_price,
            investment: self.investment,
            current_value: self.current_value,
            roi_percent: self.roi_percent,
        }
    }
}

pub open spec fn record_views(records: Seq<ValuationRecord>) -> Seq<RecordView> {
    Seq::new(records.len(), |i: int| records[i]@)
}

/// The record of `holding` at `price`.
pub open spec fn record_spec(holding: HoldingView, price: Price) -> RecordView {
    let value = value_spec(holding.investment, holding.purchase_price, price);
    RecordView {
        symbol: holding.symbol,
        current_price: price,
        investment: holding.investment,
        current_value: value,
        roi_percent: roi_spec(holding.investment, value),
    }
}

/// Values one holding at `price`.
pub fn valuate(holding: &Holding, price: Price) -> (r: ValuationRecord)
    ensures
        r@ == record_spec(holding@, price),
{
    let value = current_value(holding.investment, holding.purchase_price, price);
    ValuationRecord {
        symbol: holding.symbol.clone(),
        current_price: price,
        investment: holding.investment,
        current_value: value,
        roi_percent: roi_percent(holding.investment, value),
    }
}

} // verus!
