//! What is shown at the end of a run: the summary lines and the two charts.

use vstd::prelude::*;
use vstd::string::StringExecFns;
use crate::decimal::{
    MICROS_PER_UNIT,
    amount_display,
    amount_display_spec,
    rate_display,
    rate_display_spec,
};
use crate::measure::{Amount, Change};
use crate::record_log::row_view;
use crate::summary::PortfolioSummary;
use crate::valuation::{RATE_UNITS_PER_PERCENT, RecordView, ValuationRecord, record_views};

verus! {

/// Columns of the canvas that a chart is drawn on.
pub const CHART_WIDTH: u32 = 80;

/// Rows of the canvas that a chart is drawn on.
pub const CHART_HEIGHT: u32 = 20;

/// How the points of a chart are drawn.
#[derive(Clone, Copy, Debug, PartialEq, Eq, Structural)]
pub enum ChartStyle {
    Bars,
    Lines,
}

/// One point of a chart: the place of the holding among the holdings, and
/// the height drawn there.
#[derive(Clone, Copy, Debug, PartialEq, Eq, Structural)]
pub struct ChartPoint {
    pub index: usize,
    pub height: Change,
}

/// A chart over the holdings, from place zero to their number. The heights
/// of its points count `units_per_step` to one step of the vertical axis.
#[derive(Clone, Debug)]
pub struct Chart {
    pub title: String,
    pub style: ChartStyle,
    pub width: u32,
    pub height: u32,
    pub x_max: usize,
    pub units_per_step: u64,
    pub points: Vec<ChartPoint>,
}

/// The four lines of the summary: a heading, the two totals with two
/// decimals, and the overall return in percent.
pub open spec fn summary_lines_spec(summary: PortfolioSummary) -> Seq<Seq<char>> {
    seq![
        "--- Portfolio Summary ---"@,
        "Total Investment: $"@ + amount_display_spec(summary.total_investment),
        "Total Current Value: $"@ + amount_display_spec(summary.total_current_value),
        "Overall ROI: "@ + rate_display_spec(summary.overall_roi_percent) + "%"@,
    ]
}

/// What was invested less what it is worth now, in micro-units.
pub open spec fn shortfall_spec(record: RecordView) -> Change {
    match record.current_value {
        Amount::Finite(v) => Change::Finite((record.investment - v) as i128),
        Amount::Undefined => Change::Undefined,
    }
}

/// One point for each record, at the record's own place.
pub open spec fn shortfall_points(records: Seq<RecordView>) -> Seq<ChartPoint> {
    Seq::new(
        records.len(),
        |i: int| ChartPoint { index: i as usize, height: shortfall_spec(records[i]) },
    )
}

/// One point for each record, at the record's own place.
pub open spec fn roi_points(records: Seq<RecordView>) -> Seq<ChartPoint> {
    Seq::new(
        records.len(),
        |i: int| ChartPoint { index: i as usize, height: records[i].roi_percent },
    )
}

/// Whether `chart` is the bar chart of investment less current value, in
/// units of the currency, holding by holding.
pub open spec fn is_shortfall_chart(chart: Chart, records: Seq<RecordView>) -> bool {
    &&& chart.title@ == "--- Investment vs Current Value ---"@
    &&& chart.style == ChartStyle::Bars
    &&& chart.width == CHART_WIDTH
    &&& chart.height == CHART_HEIGHT
    &&& chart.x_max == records.len()
    &&& chart.units_per_step == MICROS_PER_UNIT
    &&& chart.points@ == shortfall_points(records)
}

/// Whether `chart` is the line chart of the return, in percent, holding by
/// holding.
pub open spec fn is_roi_chart(chart: Chart, records: Seq<RecordView>) -> bool {
    &&& chart.title@ == "--- Return on Investment (ROI) ---"@
    &&& chart.style == ChartStyle::Lines
    &&& chart.width == CHART_WIDTH
    &&& chart.height == CHART_HEIGHT
    &&& chart.x_max == records.len()
    &&& chart.units_per_step == RATE_UNITS_PER_PERCENT
    &&& chart.points@ == roi_points(records)
}

pub fn summary_lines(summary: &PortfolioSummary) -> (r: Vec<String>)
    ensures
        row_view(r@) == summary_lines_spec(*summary),
{
    let mut lines: Vec<String> = Vec::new();
    lines.push(String::from_str("--- Portfolio Summary ---"));
    let mut investment = String::from_str("Total Investment: $");
    investment.append(amount_display(summary.total_investment).as_str());
    lines.push(investment);
    let mut value = String::from_str("Total Current Value: $");
    value.append(amount_display(summary.total_current_value).as_str());
    lines.push(value);
    let mut roi = String::from_str("Overall ROI: ");
    roi.append(rate_display(summary.overall_roi_percent).as_str());
    roi.append("%");
    lines.push(roi);
    assert(row_view(lines@) =~= summary_lines_spec(*summary));
    lines
}

pub fn shortfall(record: &ValuationRecord) -> (r: Change)
    ensures
        r == shortfall_spec(record@),
{
    match record.current_value {
        Amount::Finite(v) => Change::Finite(record.investment as i128 - v as i128),
        Amount::Undefined => Change::Undefined,
    }
}

/// The bar chart of investment less current value, holding by holding.
pub fn shortfall_chart(records: &Vec<ValuationRecord>) -> (r: Chart)
    ensures
        is_shortfall_chart(r, record_views(records@)),
{
    let ghost views = record_views(records@);
    let mut points: Vec<ChartPoint> = Vec::new();
    let mut i: usize = 0;
    while i < records.len()
        invariant
            i <= records.len(),
            views == record_views(records@),
            points@ == shortfall_points(views).take(i as int),
        decreases records.len() - i,
    {
        points.push(ChartPoint { index: i, height: shortfall(&records[i]) });
        assert(points@ =~= shortfall_points(views).take(i + 1));
        i += 1;
    }
    assert(shortfall_points(views).take(i as int) =~= shortfall_points(views));
    Chart {
        title: String::from_str("--- Investment vs Current Value ---"),
        style: ChartStyle::Bars,
        width: CHART_WIDTH,
        height: CHART_HEIGHT,
        x_max: records.len(),
        units_per_step: MICROS_PER_UNIT,
        points,
    }
}

/// The line chart of the return, holding by holding.
pub fn roi_chart(records: &Vec<ValuationRecord>) -> (r: Chart)
    ensures
        is_roi_chart(r, record_views(records@)),
{
    let ghost views = record_views(records@);
    let mut points: Vec<ChartPoint> = Vec::new();
    let mut i: usize = 0;
    while i < records.len()
        invariant
            i <= records.len(),
            views == record_views(records@),
            points@ == roi_points(views).take(i as int),
        decreases records.len() - i,
    {
        points.push(ChartPoint { index: i, height: records[i].roi_percent });
        assert(points@ =~= roi_points(views).take(i + 1));
        i += 1;
    }
    assert(roi_points(views).take(i as int) =~= roi_points(views));
    Chart {
        title: String::from_str("--- Return on Investment (ROI) ---"),
        style: ChartStyle::Lines,
        width: CHART_WIDTH,
        height: CHART_HEIGHT,
        x_max: records.len(),
        units_per_step: RATE_UNITS_PER_PERCENT,
        points,
    }
}

/// The charts of a run in the order in which they are shown: investment
/// against current value first, the return second.
pub fn charts(records: &Vec<ValuationRecord>) -> (r: Vec<Chart>)
    ensures
        r@.len() == 2,
        is_shortfall_chart(r@[0], record_views(records@)),
        is_roi_chart(r@[1], record_views(records@)),
{
    let mut all: Vec<Chart> = Vec::new();
    all.push(shortfall_chart(records));
    all.push(roi_chart(records));
    all
}

} // verus!
