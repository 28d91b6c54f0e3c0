//! What holds of every valuation, stated over the functions that define it.

use vstd::prelude::*;
use crate::holding::{HoldingView, Price, QuoteView, is_quoted, price_or_zero, zero_price};
use crate::number_text::{Decimal, lemma_pow10_positive, lemma_times_pow10_zero, pow10};
use crate::measure::{Amount, Change, amount_of};
use crate::record_log::rows_spec;
use crate::report::{roi_points, shortfall_points};
use crate::summary::{invested_sum, records_spec, summary_spec, value_sum};
use crate::valuation::{
    RATE_SCALE,
    RecordView,
    ceil_div,
    exponent_gap,
    record_spec,
    roi_spec,
    value_denominator,
    value_numerator,
    value_spec,
};

verus! {

/// With a purchase price above zero and a known price, the current value
/// is the units bought times the price, cut to a whole micro-unit: it lies
/// less than one micro-unit below the exact quotient, whatever digits the
/// two prices are written with. It is undefined only where that quotient
/// does not fit the amount type.
pub proof fn value_is_units_times_price(investment: u64, purchase_price: Decimal, price: Decimal)
    requires
        purchase_price.mantissa > 0,
    ensures
        value_denominator(purchase_price, price) > 0,
        match value_spec(investment, purchase_price, Price::Known(price)) {
            Amount::Finite(v) => v * value_denominator(purchase_price, price) <= value_numerator(
                investment,
                purchase_price,
                price,
            ) < (v + 1) * value_denominator(purchase_price, price),
            Amount::Undefined => value_numerator(investment, purchase_price, price) >= (u64::MAX
                + 1) * value_denominator(purchase_price, price),
        },
{
    let n = value_numerator(investment, purchase_price, price) as int;
    let d = value_denominator(purchase_price, price) as int;
    let gap = exponent_gap(purchase_price, price);
    let down = if gap < 0 {
        (-gap) as nat
    } else {
        0
    };
    lemma_pow10_positive(down);
    assert(d > 0) by (nonlinear_arith)
        requires
            d == purchase_price.mantissa * pow10(down),
            purchase_price.mantissa > 0,
            pow10(down) > 0,
    ;
    vstd::arithmetic::div_mod::lemma_fundamental_div_mod(n, d);
    vstd::arithmetic::div_mod::lemma_mod_bound(n, d);
    let q = n / d;
    assert(d * q == q * d) by (nonlinear_arith);
    assert((q + 1) * d == q * d + d) by (nonlinear_arith);
    assert(q >= 0) by (nonlinear_arith)
        requires
            n >= 0,
            d > 0,
            q == n / d,
    ;
    if q > u64::MAX {
        assert(q * d >= (u64::MAX + 1) * d) by (nonlinear_arith)
            requires
                q >= u64::MAX + 1,
                d > 0,
        ;
    }
}

/// Two prices written with the same exponent stand to each other as their
/// mantissas do: the value is then investment times the one over the other.
pub proof fn value_at_equal_exponents(investment: u64, purchase_price: Decimal, price: Decimal)
    requires
        purchase_price.exponent == price.exponent,
    ensures
        value_numerator(investment, purchase_price, price) == investment * price.mantissa,
        value_denominator(purchase_price, price) == purchase_price.mantissa,
{
    lemma_times_pow10_zero(investment * price.mantissa);
    lemma_times_pow10_zero(purchase_price.mantissa as int);
}

/// The return is zero exactly when the holding is worth what was invested
/// in it, for an investment above zero.
pub proof fn roi_is_zero_exactly_at_par(investment: u64, value: Amount)
    requires
        investment > 0,
    ensures
        roi_spec(investment, value) == Change::Finite(0) <==> value == Amount::Finite(investment),
{
    if let Amount::Finite(v) = value {
        let d = investment as nat;
        if v > investment {
            let n = ((v - investment) * RATE_SCALE) as nat;
            assert(n >= 1) by (nonlinear_arith)
                requires
                    n == (v - investment) * RATE_SCALE,
                    v - investment >= 1,
                    RATE_SCALE == 100000000,
            ;
            lemma_ceil_div_positive(n, d);
        } else if v < investment {
            let n = ((investment - v) * RATE_SCALE) as nat;
            assert(n >= 1) by (nonlinear_arith)
                requires
                    n == (investment - v) * RATE_SCALE,
                    investment - v >= 1,
                    RATE_SCALE == 100000000,
            ;
            lemma_ceil_div_positive(n, d);
        } else {
            assert((v - investment) * RATE_SCALE == 0);
            assert((d - 1) / (d as int) == 0) by (nonlinear_arith)
                requires
                    d >= 1,
            ;
        }
    }
}

/// A positive number divided by a positive one and rounded up is positive.
pub proof fn lemma_ceil_div_positive(n: nat, d: nat)
    requires
        n >= 1,
        d >= 1,
    ensures
        ceil_div(n, d) >= 1,
{
    assert((n + d - 1) / (d as int) >= 1) by (nonlinear_arith)
        requires
            n >= 1,
            d >= 1,
    ;
}

/// The total investment is the sum of the records' investments, and the total
/// current value the sum of their current values, wherever those sums fit the
/// amount type.
pub proof fn totals_are_sums(records: Seq<RecordView>)
    ensures
        invested_sum(records) <= u64::MAX ==> summary_spec(records).total_investment
            == Amount::Finite(invested_sum(records) as u64),
        forall|s: nat|
            value_sum(records) == Some(s) && s <= u64::MAX ==> summary_spec(
                records,
            ).total_current_value == Amount::Finite(s as u64),
{
}

/// Without any investment the overall return is undefined: it is handed on
/// as such and stops nothing.
pub proof fn overall_roi_undefined_without_investment(records: Seq<RecordView>)
    requires
        invested_sum(records) == 0,
    ensures
        summary_spec(records).overall_roi_percent == Change::Undefined,
{
}

/// A holding whose symbol has no quote is valued at zero, a total loss: a
/// return of minus one hundred percent. This is for an investment and a
/// purchase price above zero.
pub proof fn unquoted_holding_is_total_loss(
    holdings: Seq<HoldingView>,
    quotes: Seq<QuoteView>,
    i: int,
)
    requires
        0 <= i < holdings.len(),
        !is_quoted(quotes, holdings[i].symbol),
        holdings[i].investment > 0,
        holdings[i].purchase_price.mantissa > 0,
    ensures
        records_spec(holdings, quotes)[i].current_price == zero_price(),
        records_spec(holdings, quotes)[i].current_value == Amount::Finite(0),
        records_spec(holdings, quotes)[i].roi_percent == Change::Finite(-100000000i128),
{
    let h = holdings[i];
    let zero = Decimal { mantissa: 0, exponent: 0 };
    assert(price_or_zero(quotes, h.symbol) == zero_price());
    value_is_units_times_price(h.investment, h.purchase_price, zero);
    let up = if exponent_gap(h.purchase_price, zero) > 0 {
        exponent_gap(h.purchase_price, zero) as nat
    } else {
        0
    };
    assert(value_numerator(h.investment, h.purchase_price, zero) == 0) by (nonlinear_arith)
        requires
            value_numerator(h.investment, h.purchase_price, zero) == h.investment as nat * 0
                * pow10(up),
    ;
    vstd::arithmetic::div_mod::lemma_basic_div(
        0,
        value_denominator(h.purchase_price, zero) as int,
    );
    let d = h.investment as nat;
    let n = ((h.investment - 0) * RATE_SCALE) as nat;
    assert(ceil_div(n, d) == 100000000) by (nonlinear_arith)
        requires
            n == d * 100000000,
            d >= 1,
            ceil_div(n, d) == ((n + d - 1) / (d as int)) as nat,
    ;
}

/// The records stand in the order of the holdings: there is one for each,
/// and the one at a place is that of the holding at that place.
pub proof fn records_keep_order(holdings: Seq<HoldingView>, quotes: Seq<QuoteView>)
    ensures
        records_spec(holdings, quotes).len() == holdings.len(),
        forall|i: int|
            0 <= i < holdings.len() ==> #[trigger] records_spec(holdings, quotes)[i]
                == record_spec(holdings[i], price_or_zero(quotes, holdings[i].symbol)),
        forall|i: int|
            0 <= i < holdings.len() ==> (#[trigger] records_spec(holdings, quotes)[i]).symbol
                == holdings[i].symbol,
{
}

/// The rows of the log and the points of both charts stand in the order of
/// the holdings too: the row at a place carries the run's timestamp and the
/// symbol of the holding at that place, and the point at a place is keyed
/// by that place.
pub proof fn log_and_charts_keep_order(
    timestamp: Seq<char>,
    holdings: Seq<HoldingView>,
    quotes: Seq<QuoteView>,
)
    requires
        holdings.len() <= usize::MAX,
    ensures
        rows_spec(timestamp, records_spec(holdings, quotes)).len() == holdings.len(),
        shortfall_points(records_spec(holdings, quotes)).len() == holdings.len(),
        roi_points(records_spec(holdings, quotes)).len() == holdings.len(),
        forall|i: int|
            #![trigger holdings[i]]
            0 <= i < holdings.len() ==> {
                let records = records_spec(holdings, quotes);
                &&& rows_spec(timestamp, records)[i][0] == timestamp
                &&& rows_spec(timestamp, records)[i][1] == holdings[i].symbol
                &&& shortfall_points(records)[i].index == i
                &&& roi_points(records)[i].index == i
                &&& roi_points(records)[i].height == records[i].roi_percent
            },
{
}

} // verus!
