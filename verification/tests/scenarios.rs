use portfolio_valuation::holding::{Holding, Price, Quote};
use portfolio_valuation::measure::{Amount, Change};
use portfolio_valuation::number_text::Decimal;
use portfolio_valuation::summary::evaluate;

const UNIT: u64 = 1_000_000;
const PERCENT: i128 = 1_000_000;

fn whole(units: u64) -> Decimal {
    Decimal { mantissa: units, exponent: 0 }
}

fn holding(symbol: &str, investment: u64, purchase_price: u64) -> Holding {
    Holding { symbol: symbol.to_string(), investment, purchase_price: whole(purchase_price) }
}

fn quote(symbol: &str, price: u64) -> Quote {
    Quote { symbol: symbol.to_string(), price: Price::Known(whole(price)) }
}

#[test]
fn single_holding_gains_a_fifth() {
    let holdings = vec![holding("BTC", 1000 * UNIT, 50000)];
    let quotes = vec![quote("BTC", 60000)];
    let valuation = evaluate(&holdings, &quotes);
    assert_eq!(valuation.records.len(), 1);
    let record = &valuation.records[0];
    assert_eq!(record.symbol, "BTC");
    assert_eq!(record.current_price, Price::Known(whole(60000)));
    assert_eq!(record.investment, 1000 * UNIT);
    assert_eq!(record.current_value, Amount::Finite(1200 * UNIT));
    assert_eq!(record.roi_percent, Change::Finite(20 * PERCENT));
    assert_eq!(valuation.summary.total_investment, Amount::Finite(1000 * UNIT));
    assert_eq!(valuation.summary.total_current_value, Amount::Finite(1200 * UNIT));
    assert_eq!(valuation.summary.overall_roi_percent, Change::Finite(20 * PERCENT));
}

#[test]
fn gain_and_loss_cancel_out() {
    let holdings = vec![holding("ETH", 500 * UNIT, 2000), holding("BTC", 500 * UNIT, 50000)];
    let quotes = vec![quote("ETH", 1800), quote("BTC", 55000)];
    let valuation = evaluate(&holdings, &quotes);
    assert_eq!(valuation.records.len(), 2);
    assert_eq!(valuation.records[0].symbol, "ETH");
    assert_eq!(valuation.records[0].current_value, Amount::Finite(450 * UNIT));
    assert_eq!(valuation.records[0].roi_percent, Change::Finite(-10 * PERCENT));
    assert_eq!(valuation.records[1].symbol, "BTC");
    assert_eq!(valuation.records[1].current_value, Amount::Finite(550 * UNIT));
    assert_eq!(valuation.records[1].roi_percent, Change::Finite(10 * PERCENT));
    assert_eq!(valuation.summary.total_investment, Amount::Finite(1000 * UNIT));
    assert_eq!(valuation.summary.total_current_value, Amount::Finite(1000 * UNIT));
    assert_eq!(valuation.summary.overall_roi_percent, Change::Finite(0));
}

#[test]
fn holdings_with_one_symbol_are_not_merged() {
    let holdings = vec![holding("BTC", 1000 * UNIT, 50000), holding("BTC", 300 * UNIT, 30000)];
    let quotes = vec![quote("BTC", 60000)];
    let valuation = evaluate(&holdings, &quotes);
    assert_eq!(valuation.records.len(), 2);
    assert_eq!(valuation.records[0].symbol, "BTC");
    assert_eq!(valuation.records[0].investment, 1000 * UNIT);
    assert_eq!(valuation.records[0].current_value, Amount::Finite(1200 * UNIT));
    assert_eq!(valuation.records[0].roi_percent, Change::Finite(20 * PERCENT));
    assert_eq!(valuation.records[1].symbol, "BTC");
    assert_eq!(valuation.records[1].investment, 300 * UNIT);
    assert_eq!(valuation.records[1].current_value, Amount::Finite(600 * UNIT));
    assert_eq!(valuation.records[1].roi_percent, Change::Finite(100 * PERCENT));
    assert_eq!(valuation.summary.total_investment, Amount::Finite(1300 * UNIT));
    assert_eq!(valuation.summary.total_current_value, Amount::Finite(1800 * UNIT));
}
