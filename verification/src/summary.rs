//! The portfolio as a whole: totals over the records, and the overall return.

use vstd::prelude::*;
use crate::holding::{Holding, HoldingView, Quote, QuoteView, holding_views, lookup_price, price_or_zero, quote_views};
use crate::measure::{Amount, Change, amount_of, amount_of_sum};
use crate::valuation::{RecordView, ValuationRecord, record_spec, record_views, roi_percent, roi_spec, valuate};

verus! {

/// The totals of one run and the return of the portfolio as a whole.
#[derive(Clone, Copy, Debug, PartialEq, Eq, Structural)]
pub struct PortfolioSummary {
    pub total_investment: Amount,
    pub total_current_value: Amount,
    pub overall_roi_percent: Change,
}

/// The records of one run, in the order of the holdings, with their summary.
#[derive(Clone, Debug)]
pub struct Valuation {
    pub records: Vec<ValuationRecord>,
    pub summary: PortfolioSummary,
}

/// The exact sum of what was invested.
pub open spec fn invested_sum(records: Seq<RecordView>) -> nat
    decreases records.len(),
{
    if records.len() == 0 {
        0
    } else {
        invested_sum(records.drop_last()) + records.last().investment as nat
    }
}

/// The exact sum of the current values; there is none once a value is
/// undefined.
pub open spec fn value_sum(records: Seq<RecordView>) -> Option<nat>
    decreases records.len(),
{
    if records.len() == 0 {
        Some(0)
    } else {
        match (value_sum(records.drop_last()), records.last().current_value) {
            (Some(s), Amount::Finite(v)) => Some(s + v as nat),
            _ => None,
        }
    }
}

/// The return of total `value` on total `investment`; undefined once either
/// total is, and for a total investment of zero.
pub open spec fn overall_roi_spec(investment: Amount, value: Amount) -> Change {
    match investment {
        Amount::Finite(t) => roi_spec(t, value),
        Amount::Undefined => Change::Undefined,
    }
}

pub open spec fn summary_spec(records: Seq<RecordView>) -> PortfolioSummary {
    let investment = amount_of(invested_sum(records) as int);
    let value = amount_of_sum(value_sum(records));
    PortfolioSummary {
        total_investment: investment,
        total_current_value: value,
        overall_roi_percent: overall_roi_spec(investment, value),
    }
}

/// The records of `holdings` against `quotes`: one for each holding, in the
/// same order, each at the price quoted for its symbol or at zero.
pub open spec fn records_spec(holdings: Seq<HoldingView>, quotes: Seq<QuoteView>) -> Seq<
    RecordView,
> {
    Seq::new(
        holdings.len(),
        |i: int| record_spec(holdings[i], price_or_zero(quotes, holdings[i].symbol)),
    )
}

pub fn overall_roi(investment: Amount, value: Amount) -> (r: Change)
    ensures
        r == overall_roi_spec(investment, value),
{
    match investment {
        Amount::Finite(t) => roi_percent(t, value),
        Amount::Undefined => Change::Undefined,
    }
}

proof fn lemma_sums_step(records: Seq<RecordView>, n: int)
    requires
        0 <= n < records.len(),
    ensures
        amount_of(invested_sum(records.take(n + 1)) as int) == amount_of(
            invested_sum(records.take(n)) as int,
        ).plus_spec(Amount::Finite(records[n].investment)),
        amount_of_sum(value_sum(records.take(n + 1))) == amount_of_sum(
            value_sum(records.take(n)),
        ).plus_spec(records[n].current_value),
{
    assert(records.take(n + 1).drop_last() =~= records.take(n));
    assert(records.take(n + 1).last() == records[n]);
}

/// Sums the records up.
pub fn summarize(records: &Vec<ValuationRecord>) -> (r: PortfolioSummary)
    ensures
        r == summary_spec(record_views(records@)),
{
    let ghost views = record_views(records@);
    let mut investment = Amount::Finite(0);
    let mut value = Amount::Finite(0);
    let mut i: usize = 0;
    while i < records.len()
        invariant
            i <= records.len(),
            views == record_views(records@),
            investment == amount_of(invested_sum(views.take(i as int)) as int),
            value == amount_of_sum(value_sum(views.take(i as int))),
        decreases records.len() - i,
    {
        proof {
            lemma_sums_step(views, i as int);
        }
        investment = investment.plus(Amount::Finite(records[i].investment));
        value = value.plus(records[i].current_value);
        i += 1;
    }
    assert(views.take(i as int) =~= views);
    PortfolioSummary {
        total_investment: investment,
        total_current_value: value,
        overall_roi_percent: overall_roi(investment, value),
    }
}

/// Values every holding against the quotes and sums the records up in the
/// same pass.
pub fn evaluate(holdings: &Vec<Holding>, quotes: &Vec<Quote>) -> (r: Valuation)
    ensures
        record_views(r.records@) == records_spec(holding_views(holdings@), quote_views(quotes@)),
        r.summary == summary_spec(record_views(r.records@)),
{
    let ghost hs = holding_views(holdings@);
    let ghost qs = quote_views(quotes@);
    let mut records: Vec<ValuationRecord> = Vec::new();
    let mut investment = Amount::Finite(0);
    let mut value = Amount::Finite(0);
    let mut i: usize = 0;
    while i < holdings.len()
        invariant
            i <= holdings.len(),
            hs == holding_views(holdings@),
            qs == quote_views(quotes@),
            records@.len() == i,
            record_views(records@) == records_spec(hs, qs).take(i as int),
            investment == amount_of(invested_sum(record_views(records@)) as int),
            value == amount_of_sum(value_sum(record_views(records@))),
        decreases holdings.len() - i,
    {
        let holding = &holdings[i];
        let price = lookup_price(quotes, &holding.symbol);
        let record = valuate(holding, price);
        let ghost before = record_views(records@);
        investment = investment.plus(Amount::Finite(record.investment));
        value = value.plus(record.current_value);
        records.push(record);
        proof {
            let after = record_views(records@);
            assert(after =~= records_spec(hs, qs).take(i + 1));
            assert(after.take(i as int) =~= before);
            assert(after.take(i + 1) =~= after);
            lemma_sums_step(after, i as int);
        }
        i += 1;
    }
    assert(records_spec(hs, qs).take(i as int) =~= records_spec(hs, qs));
    Valuation {
        records,
        summary: PortfolioSummary {
            total_investment: investment,
            total_current_value: value,
            overall_roi_percent: overall_roi(investment, value),
        },
    }
}

} // verus!
