use portfolio_valuation::decimal::{
    amount_display, amount_text, decimal_text, rate_display, rate_text, written_price,
    MICROS_PER_UNIT,
};
use portfolio_valuation::holding::{Holding, Price};
use portfolio_valuation::measure::{Amount, Change};
use portfolio_valuation::number_text::{parse_decimal, parse_micros, Decimal, Reading};
use portfolio_valuation::query::symbol_query;

fn holding(symbol: &str) -> Holding {
    Holding {
        symbol: symbol.to_string(),
        investment: 1,
        purchase_price: Decimal { mantissa: 1, exponent: 0 },
    }
}

fn dec(mantissa: u64, exponent: i8) -> Decimal {
    Decimal { mantissa, exponent }
}

fn number(mantissa: u64, exponent: i8) -> Reading {
    Reading::Number(dec(mantissa, exponent))
}

#[test]
fn amount_is_written_with_six_decimals() {
    assert_eq!(MICROS_PER_UNIT, 1_000_000);
    assert_eq!(amount_text(Amount::Finite(1_200_000_000)), "1200.000000");
    assert_eq!(amount_text(Amount::Finite(12)), "0.000012");
    assert_eq!(amount_text(Amount::Finite(0)), "0.000000");
    assert_eq!(amount_text(Amount::Finite(1_000_001)), "1.000001");
    assert_eq!(amount_text(Amount::Finite(u64::MAX)), "18446744073709.551615");
    assert_eq!(amount_text(Amount::Undefined), "NaN");
}

#[test]
fn amount_is_shown_rounded_to_two_decimals() {
    assert_eq!(amount_display(Amount::Finite(1_000_000_000)), "1000.00");
    assert_eq!(amount_display(Amount::Finite(1_234_564_999)), "1234.56");
    assert_eq!(amount_display(Amount::Finite(1_234_565_000)), "1234.57");
    assert_eq!(amount_display(Amount::Finite(4_999)), "0.00");
    assert_eq!(amount_display(Amount::Finite(5_000)), "0.01");
    assert_eq!(amount_display(Amount::Finite(u64::MAX)), "18446744073709.55");
    assert_eq!(amount_display(Amount::Undefined), "NaN");
}

#[test]
fn rate_is_written_in_percent_with_six_decimals() {
    assert_eq!(rate_text(Change::Finite(20_000_000)), "20.000000");
    assert_eq!(rate_text(Change::Finite(-10_000_000)), "-10.000000");
    assert_eq!(rate_text(Change::Finite(0)), "0.000000");
    assert_eq!(rate_text(Change::Finite(33_333_334)), "33.333334");
    assert_eq!(rate_text(Change::Finite(5)), "0.000005");
    assert_eq!(rate_text(Change::Finite(-5)), "-0.000005");
    assert_eq!(rate_text(Change::Finite(-100_000_000)), "-100.000000");
    assert_eq!(
        rate_text(Change::Finite(i128::MIN)),
        "-170141183460469231731687303715884.105728"
    );
    assert_eq!(rate_text(Change::Finite(i128::MAX)), "170141183460469231731687303715884.105727");
    assert_eq!(rate_text(Change::Undefined), "NaN");
}

#[test]
fn rate_is_shown_rounded_to_two_decimals() {
    assert_eq!(rate_display(Change::Finite(20_000_000)), "20.00");
    assert_eq!(rate_display(Change::Finite(-10_000_000)), "-10.00");
    assert_eq!(rate_display(Change::Finite(33_333_334)), "33.33");
    assert_eq!(rate_display(Change::Finite(-33_333_334)), "-33.33");
    assert_eq!(rate_display(Change::Finite(66_666_667)), "66.67");
    assert_eq!(rate_display(Change::Finite(1)), "0.00");
    assert_eq!(rate_display(Change::Finite(4_999)), "0.00");
    assert_eq!(rate_display(Change::Finite(5_000)), "0.01");
    assert_eq!(rate_display(Change::Finite(-5_000)), "-0.01");
    assert_eq!(rate_display(Change::Finite(-1)), "-0.00");
    assert_eq!(rate_display(Change::Finite(0)), "0.00");
    assert_eq!(rate_display(Change::Finite(1_234_565_000)), "1234.57");
    assert_eq!(rate_display(Change::Finite(i128::MAX)), "170141183460469231731687303715884.11");
    assert_eq!(rate_display(Change::Finite(i128::MIN)), "-170141183460469231731687303715884.11");
    assert_eq!(rate_display(Change::Undefined), "NaN");
}

#[test]
fn decimal_is_written_without_an_exponent() {
    assert_eq!(decimal_text(dec(60000, 0)), "60000");
    assert_eq!(decimal_text(dec(600000, -1)), "60000.0");
    assert_eq!(decimal_text(dec(135, -7)), "0.0000135");
    assert_eq!(decimal_text(dec(1234, -8)), "0.00001234");
    assert_eq!(decimal_text(dec(18005, -1)), "1800.5");
    assert_eq!(decimal_text(dec(2, 3)), "2000");
    assert_eq!(decimal_text(dec(0, 0)), "0");
    assert_eq!(decimal_text(dec(0, 5)), "0");
    assert_eq!(decimal_text(dec(0, -2)), "0.00");
    assert_eq!(decimal_text(dec(u64::MAX, 0)), "18446744073709551615");
    assert_eq!(decimal_text(dec(u64::MAX, -20)), "0.18446744073709551615");
    assert_eq!(decimal_text(dec(u64::MAX, -19)), "1.8446744073709551615");
    assert_eq!(decimal_text(dec(7, 127)), format!("7{}", "0".repeat(127)));
    assert_eq!(decimal_text(dec(7, -128)), format!("0.{}7", "0".repeat(127)));
    assert_eq!(written_price(Price::Known(dec(135, -7))), "0.0000135");
    assert_eq!(written_price(Price::OutOfRange), "NaN");
}

#[test]
fn symbols_are_joined_by_commas() {
    assert_eq!(symbol_query(&vec![holding("BTC"), holding("ETH"), holding("ADA")]), "BTC,ETH,ADA");
    assert_eq!(symbol_query(&vec![holding("BTC")]), "BTC");
    assert_eq!(symbol_query(&vec![holding("BTC"), holding("BTC")]), "BTC,BTC");
    assert_eq!(symbol_query(&Vec::new()), "");
}

#[test]
fn numbers_are_read_with_every_digit() {
    assert_eq!(parse_decimal(b"60000"), number(60000, 0));
    assert_eq!(parse_decimal(b"60000.0"), number(600000, -1));
    assert_eq!(parse_decimal(b"0.0000135"), number(135, -7));
    assert_eq!(parse_decimal(b"0.00001234"), number(1234, -8));
    assert_eq!(parse_decimal(b"0.0000009"), number(9, -7));
    assert_eq!(parse_decimal(b"007.25"), number(725, -2));
    assert_eq!(parse_decimal(b"1.5e3"), number(15, 2));
    assert_eq!(parse_decimal(b"1E+2"), number(1, 2));
    assert_eq!(parse_decimal(b"1e-7"), number(1, -7));
    assert_eq!(parse_decimal(b"123456789e-10"), number(123456789, -10));
    assert_eq!(parse_decimal(b"1.2345678901234568e20"), number(12345678901234568, 4));
    assert_eq!(parse_decimal(b"18446744073709551615"), number(u64::MAX, 0));
    assert_eq!(parse_decimal(b"1.8446744073709551615e-100"), number(u64::MAX, -119));
    assert_eq!(parse_decimal(b"5e127"), number(5, 127));
    assert_eq!(parse_decimal(b"5e-128"), number(5, -128));
    assert_eq!(parse_decimal(b"0.5e-127"), number(5, -128));
}

#[test]
fn zero_is_read_however_it_is_written() {
    assert_eq!(parse_decimal(b"0"), number(0, 0));
    assert_eq!(parse_decimal(b"0.000"), number(0, 0));
    assert_eq!(parse_decimal(b"0e99999999999999999999999999999999999999"), number(0, 0));
    assert_eq!(parse_decimal(b"0.0e-99999999999999999999999999999999999999"), number(0, 0));
    assert_eq!(parse_decimal(b"00000000000000000000000000000000000000000"), number(0, 0));
}

#[test]
fn numbers_past_the_range_are_told_apart() {
    assert_eq!(parse_decimal(b"18446744073709551616"), Reading::OutOfRange);
    assert_eq!(parse_decimal(b"1.00000000000000000000"), Reading::OutOfRange);
    assert_eq!(parse_decimal(b"5e128"), Reading::OutOfRange);
    assert_eq!(parse_decimal(b"5e-129"), Reading::OutOfRange);
    assert_eq!(parse_decimal(b"0.5e-128"), Reading::OutOfRange);
    assert_eq!(parse_decimal(b"1e300"), Reading::OutOfRange);
    assert_eq!(parse_decimal(b"1e-300"), Reading::OutOfRange);
    assert_eq!(parse_decimal(b"1e99999999999999999999999999999999999999"), Reading::OutOfRange);
    assert_eq!(parse_decimal(b"1e-99999999999999999999999999999999999999"), Reading::OutOfRange);
}

#[test]
fn amounts_are_read_in_micro_units() {
    assert_eq!(parse_micros(b"60000"), Some(60_000_000_000));
    assert_eq!(parse_micros(b"60000.0"), Some(60_000_000_000));
    assert_eq!(parse_micros(b"1800.5"), Some(1_800_500_000));
    assert_eq!(parse_micros(b"0"), Some(0));
    assert_eq!(parse_micros(b"0.000001"), Some(1));
    assert_eq!(parse_micros(b"0.0000010000"), Some(1));
    assert_eq!(parse_micros(b"007.25"), Some(7_250_000));
    assert_eq!(parse_micros(b"1.5e3"), Some(1_500_000_000));
    assert_eq!(parse_micros(b"1E+2"), Some(100_000_000));
    assert_eq!(parse_micros(b"1e-6"), Some(1));
    assert_eq!(parse_micros(b"1234560000e-10"), Some(123_456));
    assert_eq!(parse_micros(b"5e-0"), Some(5_000_000));
    assert_eq!(parse_micros(b"0e99999999999999999999999999999999999999"), Some(0));
    assert_eq!(parse_micros(b"0.000e-99999999999999999999999999999999999999"), Some(0));
}

#[test]
fn amount_is_cut_to_a_whole_micro_unit() {
    assert_eq!(parse_micros(b"0.00001234"), Some(12));
    assert_eq!(parse_micros(b"0.0000015"), Some(1));
    assert_eq!(parse_micros(b"0.0000019"), Some(1));
    assert_eq!(parse_micros(b"0.0000009"), Some(0));
    assert_eq!(parse_micros(b"1e-7"), Some(0));
    assert_eq!(parse_micros(b"123456789e-10"), Some(12_345));
    assert_eq!(parse_micros(b"1234567000e-10"), Some(123_456));
    assert_eq!(parse_micros(b"1000.1234567"), Some(1_000_123_456));
    assert_eq!(parse_micros(b"33.333333333333336"), Some(33_333_333));
    assert_eq!(parse_micros(b"1e-99999999999999999999999999999999999999"), Some(0));
    assert_eq!(parse_micros(b"18446744073709.5516159"), Some(u64::MAX));
    assert_eq!(parse_micros(b"99999999999999999999999999999999999999e-38"), Some(999_999));
}

#[test]
fn amount_is_the_number_read_as_a_decimal_times_a_million() {
    for text in ["60000.0", "0.0000135", "1.5e3", "1e-7", "123456789e-10", "33.333333333333336"] {
        let amount = parse_micros(text.as_bytes()).unwrap();
        let read = match parse_decimal(text.as_bytes()) {
            Reading::Number(d) => d,
            other => panic!("{} was read as {:?}", text, other),
        };
        let places = read.exponent as i32 + 6;
        let expected = if places >= 0 {
            read.mantissa as u128 * 10u128.pow(places as u32)
        } else {
            read.mantissa as u128 / 10u128.pow((-places) as u32)
        };
        assert_eq!(amount as u128, expected);
    }
}

#[test]
fn largest_amount_is_read_and_the_next_is_not() {
    assert_eq!(parse_micros(b"18446744073709.551615"), Some(u64::MAX));
    assert_eq!(parse_micros(b"18446744073709.551616"), None);
    assert_eq!(parse_micros(b"18446744073709551615e-6"), Some(u64::MAX));
    assert_eq!(parse_micros(b"1e13"), Some(10_000_000_000_000_000_000));
    assert_eq!(parse_micros(b"1e14"), None);
    assert_eq!(parse_micros(b"1.2345678901234568e20"), None);
    assert_eq!(parse_micros(b"99999999999999999999999999999999999999"), None);
    assert_eq!(parse_micros(b"1e99999999999999999999999999999999999999"), None);
}

#[test]
fn other_texts_are_no_numbers() {
    for text in [
        "", "-5", "+5", "1.", ".5", "1e", "1e-", "1e+", "12a", "1.2.3", "1e2e3", " 1", "1 ", "NaN",
    ] {
        assert_eq!(parse_micros(text.as_bytes()), None);
        assert_eq!(parse_decimal(text.as_bytes()), Reading::NoNumber);
    }
}
