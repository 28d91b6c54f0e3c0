use portfolio_valuation::holding::{Holding, Price, Quote};
use portfolio_valuation::measure::{Amount, Change};
use portfolio_valuation::number_text::Decimal;
use portfolio_valuation::record_log::{
    encode_entries, entries, extend_log, header, row, rows, stamped_entries, WriteError,
};
use portfolio_valuation::report::{
    charts, roi_chart, shortfall, shortfall_chart, summary_lines, ChartPoint, ChartStyle,
    CHART_HEIGHT, CHART_WIDTH,
};
use portfolio_valuation::summary::{evaluate, PortfolioSummary, Valuation};
use portfolio_valuation::valuation::ValuationRecord;

const UNIT: u64 = 1_000_000;

fn dec(mantissa: u64, exponent: i8) -> Decimal {
    Decimal { mantissa, exponent }
}

fn holding(symbol: &str, investment: u64, purchase_price: u64) -> Holding {
    Holding { symbol: symbol.to_string(), investment, purchase_price: dec(purchase_price, 0) }
}

fn quote(symbol: &str, mantissa: u64, exponent: i8) -> Quote {
    Quote { symbol: symbol.to_string(), price: Price::Known(dec(mantissa, exponent)) }
}

fn two_holdings() -> Valuation {
    let holdings = vec![holding("ETH", 500 * UNIT, 2000), holding("BTC", 500 * UNIT, 50000)];
    let quotes = vec![quote("ETH", 18000, -1), quote("BTC", 55, 3)];
    evaluate(&holdings, &quotes)
}

fn record(symbol: &str, value: Amount, roi: Change) -> ValuationRecord {
    ValuationRecord {
        symbol: symbol.to_string(),
        current_price: Price::OutOfRange,
        investment: 100 * UNIT,
        current_value: value,
        roi_percent: roi,
    }
}

#[test]
fn header_names_six_columns() {
    assert_eq!(
        header(),
        vec!["Timestamp", "Coin", "Current Price", "Investment", "Current Value", "ROI (%)"]
    );
}

#[test]
fn row_holds_timestamp_symbol_and_numbers_in_full() {
    let valuation = two_holdings();
    let stamp = "2024-05-01T12:00:00+00:00".to_string();
    assert_eq!(
        row(&stamp, &valuation.records[0]),
        vec![
            "2024-05-01T12:00:00+00:00",
            "ETH",
            "1800.0",
            "500.000000",
            "450.000000",
            "-10.000000"
        ]
    );
    assert_eq!(
        row(&stamp, &record("X", Amount::Undefined, Change::Undefined)),
        vec!["2024-05-01T12:00:00+00:00", "X", "NaN", "100.000000", "NaN", "NaN"]
    );
}

#[test]
fn rows_follow_the_records_under_one_timestamp() {
    let valuation = two_holdings();
    let stamp = "T".to_string();
    let all = rows(&stamp, &valuation.records);
    assert_eq!(all.len(), 2);
    assert_eq!(all[0], vec!["T", "ETH", "1800.0", "500.000000", "450.000000", "-10.000000"]);
    assert_eq!(all[1], vec!["T", "BTC", "55000", "500.000000", "550.000000", "10.000000"]);
    assert!(rows(&stamp, &Vec::new()).is_empty());
}

#[test]
fn header_goes_into_an_empty_log_only() {
    let valuation = two_holdings();
    let stamp = "T".to_string();
    let first = entries(true, &stamp, &valuation.records);
    assert_eq!(first.len(), 3);
    assert_eq!(first[0], header());
    assert_eq!(first[1..].to_vec(), rows(&stamp, &valuation.records));
    let later = entries(false, &stamp, &valuation.records);
    assert_eq!(later, rows(&stamp, &valuation.records));
    assert_eq!(entries(true, &stamp, &Vec::new()), vec![header()]);
    assert!(entries(false, &stamp, &Vec::new()).is_empty());
}

#[test]
fn holdings_with_one_symbol_get_a_row_each() {
    let holdings = vec![holding("BTC", 1000 * UNIT, 50000), holding("BTC", 300 * UNIT, 30000)];
    let quotes = vec![quote("BTC", 60000, 0)];
    let valuation = evaluate(&holdings, &quotes);
    let all = rows(&"T".to_string(), &valuation.records);
    assert_eq!(all.len(), 2);
    assert_eq!(all[0], vec!["T", "BTC", "60000", "1000.000000", "1200.000000", "20.000000"]);
    assert_eq!(all[1], vec!["T", "BTC", "60000", "300.000000", "600.000000", "100.000000"]);
}

#[test]
fn entries_are_encoded_line_by_line() {
    let valuation = two_holdings();
    let stamp = "2024-05-01T12:00:00+00:00".to_string();
    let bytes = encode_entries(&entries(true, &stamp, &valuation.records)).unwrap();
    let expected = "Timestamp,Coin,Current Price,Investment,Current Value,ROI (%)\n\
                    2024-05-01T12:00:00+00:00,ETH,1800.0,500.000000,450.000000,-10.000000\n\
                    2024-05-01T12:00:00+00:00,BTC,55000,500.000000,550.000000,10.000000\n";
    assert_eq!(String::from_utf8(bytes).unwrap(), expected);
    assert_eq!(encode_entries(&Vec::new()), Ok(Vec::new()));
}

#[test]
fn fields_with_commas_or_quotes_are_quoted() {
    let fields = vec![vec!["a,b".to_string(), "say \"hi\"".to_string(), "plain".to_string()]];
    let bytes = encode_entries(&fields).unwrap();
    assert_eq!(String::from_utf8(bytes).unwrap(), "\"a,b\",\"say \"\"hi\"\"\",plain\n");
}

#[test]
fn encoded_record_extends_the_log() {
    let mut log = b"head\n".to_vec();
    assert_eq!(extend_log(&mut log, Ok(b"a,b\n".to_vec())), Ok(()));
    assert_eq!(log, b"head\na,b\n".to_vec());
    let mut reader = csv::Reader::from_reader(&b"a,b\n1,2,3\n"[..]);
    let fault = reader.records().next().unwrap().unwrap_err();
    assert_eq!(extend_log(&mut log, Err(fault)), Err(WriteError::Encoding));
    assert_eq!(log, b"head\na,b\n".to_vec());
}

#[test]
fn stamped_entries_share_the_time_of_the_run() {
    let valuation = two_holdings();
    let (stamp, all) = stamped_entries(true, &valuation.records);
    assert!(chrono::DateTime::parse_from_rfc3339(&stamp).is_ok());
    assert_eq!(all, entries(true, &stamp, &valuation.records));
    assert_eq!(all[1][0], stamp);
    assert_eq!(all[2][0], stamp);
}

#[test]
fn summary_shows_two_decimals() {
    let holdings = vec![holding("BTC", 1000 * UNIT, 50000)];
    let quotes = vec![quote("BTC", 60000, 0)];
    let valuation = evaluate(&holdings, &quotes);
    assert_eq!(
        summary_lines(&valuation.summary),
        vec![
            "--- Portfolio Summary ---",
            "Total Investment: $1000.00",
            "Total Current Value: $1200.00",
            "Overall ROI: 20.00%"
        ]
    );
}

#[test]
fn overall_roi_is_rounded_for_the_summary_only() {
    let holdings = vec![holding("A", 3 * UNIT, 3)];
    let quotes = vec![quote("A", 4, 0)];
    let valuation = evaluate(&holdings, &quotes);
    assert_eq!(valuation.summary.overall_roi_percent, Change::Finite(33_333_334));
    assert_eq!(summary_lines(&valuation.summary)[3], "Overall ROI: 33.33%");
    assert_eq!(rows(&"T".to_string(), &valuation.records)[0][5], "33.333334");
}

#[test]
fn summary_shows_undefined_results_as_such() {
    let summary = PortfolioSummary {
        total_investment: Amount::Finite(0),
        total_current_value: Amount::Undefined,
        overall_roi_percent: Change::Undefined,
    };
    assert_eq!(
        summary_lines(&summary),
        vec![
            "--- Portfolio Summary ---",
            "Total Investment: $0.00",
            "Total Current Value: $NaN",
            "Overall ROI: NaN%"
        ]
    );
}

#[test]
fn shortfall_is_investment_less_value() {
    assert_eq!(
        shortfall(&record("A", Amount::Finite(40 * UNIT), Change::Finite(-60_000_000))),
        Change::Finite(60_000_000)
    );
    assert_eq!(
        shortfall(&record("A", Amount::Finite(150 * UNIT), Change::Finite(50_000_000))),
        Change::Finite(-50_000_000)
    );
    assert_eq!(shortfall(&record("A", Amount::Undefined, Change::Undefined)), Change::Undefined);
}

#[test]
fn charts_are_keyed_by_place() {
    let valuation = two_holdings();
    let bars = shortfall_chart(&valuation.records);
    assert_eq!(bars.title, "--- Investment vs Current Value ---");
    assert_eq!(bars.style, ChartStyle::Bars);
    assert_eq!((bars.width, bars.height), (80, 20));
    assert_eq!((CHART_WIDTH, CHART_HEIGHT), (80, 20));
    assert_eq!(bars.x_max, 2);
    assert_eq!(bars.units_per_step, 1_000_000);
    assert_eq!(
        bars.points,
        vec![
            ChartPoint { index: 0, height: Change::Finite(50_000_000) },
            ChartPoint { index: 1, height: Change::Finite(-50_000_000) },
        ]
    );
    let lines = roi_chart(&valuation.records);
    assert_eq!(lines.title, "--- Return on Investment (ROI) ---");
    assert_eq!(lines.style, ChartStyle::Lines);
    assert_eq!((lines.width, lines.height), (80, 20));
    assert_eq!(lines.x_max, 2);
    assert_eq!(lines.units_per_step, 1_000_000);
    assert_eq!(
        lines.points,
        vec![
            ChartPoint { index: 0, height: Change::Finite(-10_000_000) },
            ChartPoint { index: 1, height: Change::Finite(10_000_000) },
        ]
    );
    assert!(roi_chart(&Vec::new()).points.is_empty());
    assert_eq!(shortfall_chart(&Vec::new()).x_max, 0);
}

#[test]
fn value_chart_comes_before_roi_chart() {
    let valuation = two_holdings();
    let all = charts(&valuation.records);
    assert_eq!(all.len(), 2);
    assert_eq!(all[0].title, "--- Investment vs Current Value ---");
    assert_eq!(all[0].style, ChartStyle::Bars);
    assert_eq!(all[0].points, shortfall_chart(&valuation.records).points);
    assert_eq!(all[1].title, "--- Return on Investment (ROI) ---");
    assert_eq!(all[1].style, ChartStyle::Lines);
    assert_eq!(all[1].points, roi_chart(&valuation.records).points);
}

#[test]
fn every_record_is_encoded() {
    let many: Vec<Vec<String>> =
        (0..50).map(|i| (0..(1 + i % 7)).map(|j| format!("f{}\n,\"{}", i, j)).collect()).collect();
    let bytes = encode_entries(&many).unwrap();
    let mut reader = csv::ReaderBuilder::new()
        .has_headers(false)
        .flexible(true)
        .from_reader(bytes.as_slice());
    let read: Vec<Vec<String>> = reader
        .records()
        .map(|r| r.unwrap().iter().map(|f| f.to_string()).collect())
        .collect();
    assert_eq!(read.len(), 50);
    assert_eq!(read, many);
    assert_eq!(encode_entries(&vec![Vec::new()]), Ok(b"\"\"\n".to_vec()));
    assert_eq!(encode_entries(&vec![vec![String::new()]]), Ok(b"\"\"\n".to_vec()));
}
