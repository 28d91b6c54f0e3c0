//! The rows that one run adds to the record log.

use vstd::prelude::*;
use vstd::string::StringExecFns;
use crate::decimal::{
    amount_text,
    amount_text_spec,
    rate_text,
    rate_text_spec,
    written_price,
    written_price_spec,
};
use crate::measure::Amount;
use crate::valuation::{RecordView, ValuationRecord, record_views};

verus! {

/// The fields of one row as sequences of characters.
pub open spec fn row_view(row: Seq<String>) -> Seq<Seq<char>> {
    Seq::new(row.len(), |i: int| row[i]@)
}

/// The rows of a log as sequences of fields.
pub open spec fn rows_view(rows: Seq<Vec<String>>) -> Seq<Seq<Seq<char>>> {
    Seq::new(rows.len(), |i: int| row_view(rows[i]@))
}

/// The six column names of the log.
pub open spec fn header_spec() -> Seq<Seq<char>> {
    seq![
        "Timestamp"@,
        "Coin"@,
        "Current Price"@,
        "Investment"@,
        "Current Value"@,
        "ROI (%)"@,
    ]
}

/// The row of one record: the run's timestamp, the symbol, and the four
/// numbers in full.
pub open spec fn row_spec(timestamp: Seq<char>, record: RecordView) -> Seq<Seq<char>> {
    seq![
        timestamp,
        record.symbol,
        written_price_spec(record.current_price),
        amount_text_spec(Amount::Finite(record.investment)),
        amount_text_spec(record.current_value),
        rate_text_spec(record.roi_percent),
    ]
}

/// One row for each record, in the order of the records, all under the same
/// timestamp.
pub open spec fn rows_spec(timestamp: Seq<char>, records: Seq<RecordView>) -> Seq<
    Seq<Seq<char>>,
> {
    Seq::new(records.len(), |i: int| row_spec(timestamp, records[i]))
}

/// What one run appends: the rows, behind the header where the log is still
/// empty, so that a log holds its header once.
pub open spec fn entries_spec(
    log_is_empty: bool,
    timestamp: Seq<char>,
    records: Seq<RecordView>,
) -> Seq<Seq<Seq<char>>> {
    if log_is_empty {
        seq![header_spec()] + rows_spec(timestamp, records)
    } else {
        rows_spec(timestamp, records)
    }
}

pub fn header() -> (r: Vec<String>)
    ensures
        row_view(r@) == header_spec(),
{
    let mut fields: Vec<String> = Vec::new();
    fields.push(String::from_str("Timestamp"));
    fields.push(String::from_str("Coin"));
    fields.push(String::from_str("Current Price"));
    fields.push(String::from_str("Investment"));
    fields.push(String::from_str("Current Value"));
    fields.push(String::from_str("ROI (%)"));
    assert(row_view(fields@) =~= header_spec());
    fields
}

pub fn row(timestamp: &String, record: &ValuationRecord) -> (r: Vec<String>)
    ensures
        row_view(r@) == row_spec(timestamp@, record@),
{
    let mut fields: Vec<String> = Vec::new();
    fields.push(timestamp.clone());
    fields.push(record.symbol.clone());
    fields.push(written_price(record.current_price));
    fields.push(amount_text(Amount::Finite(record.investment)));
    fields.push(amount_text(record.current_value));
    fields.push(rate_text(record.roi_percent));
    assert(row_view(fields@) =~= row_spec(timestamp@, record@));
    fields
}

pub fn rows(timestamp: &String, records: &Vec<ValuationRecord>) -> (r: Vec<Vec<String>>)
    ensures
        rows_view(r@) == rows_spec(timestamp@, record_views(records@)),
{
    let mut out: Vec<Vec<String>> = Vec::new();
    append_rows(&mut out, timestamp, records);
    assert(rows_view(out@) =~= rows_spec(timestamp@, record_views(records@)));
    out
}

fn append_rows(out: &mut Vec<Vec<String>>, timestamp: &String, records: &Vec<ValuationRecord>)
    ensures
        rows_view(final(out)@) == rows_view(old(out)@) + rows_spec(
            timestamp@,
            record_views(records@),
        ),
{
    let ghost before = rows_view(out@);
    let ghost views = record_views(records@);
    let mut i: usize = 0;
    while i < records.len()
        invariant
            i <= records.len(),
            views == record_views(records@),
            rows_view(out@) == before + rows_spec(timestamp@, views).take(i as int),
        decreases records.len() - i,
    {
        let ghost earlier = out@;
        let fields = row(timestamp, &records[i]);
        out.push(fields);
        proof {
            let grown = before + rows_spec(timestamp@, views).take(i + 1);
            let all = rows_spec(timestamp@, views);
            assert(all.len() == records@.len());
            assert(all.take(i as int).len() == i);
            assert(all.take(i + 1).len() == i + 1);
            assert(rows_view(earlier).len() == earlier.len());
            assert(rows_view(out@).len() == grown.len());
            assert forall|j: int| 0 <= j < grown.len() implies rows_view(out@)[j] == grown[j] by {
                if j < earlier.len() {
                    assert(out@[j] == earlier[j]);
                    assert(rows_view(earlier)[j] == row_view(earlier[j]@));
                } else {
                    assert(views[i as int] == records@[i as int]@);
                }
            }
            assert(rows_view(out@) =~= grown);
        }
        i += 1;
    }
    assert(rows_spec(timestamp@, views).take(i as int) =~= rows_spec(timestamp@, views));
}

/// The entries that a run appends to a log that is or is not empty yet.
pub fn entries(log_is_empty: bool, timestamp: &String, records: &Vec<ValuationRecord>) -> (r:
    Vec<Vec<String>>)
    ensures
        rows_view(r@) == entries_spec(log_is_empty, timestamp@, record_views(records@)),
{
    let mut out: Vec<Vec<String>> = Vec::new();
    if log_is_empty {
        out.push(header());
    }
    assert(rows_view(out@) =~= if log_is_empty {
        seq![header_spec()]
    } else {
        Seq::empty()
    });
    append_rows(&mut out, timestamp, records);
    assert(rows_view(out@) =~= entries_spec(log_is_empty, timestamp@, record_views(records@)));
    out
}

#[verifier::external_type_specification]
#[verifier::external_body]
pub struct ExCsvError(csv::Error);

/// The bytes of one record in the log: its fields as the CSV writer puts
/// them out, with the line's end.
pub uninterp spec fn csv_record(fields: Seq<Seq<char>>) -> Seq<u8>;

/// Why a run could not write its entries.
#[derive(Clone, Copy, Debug, PartialEq, Eq, Structural)]
pub enum WriteError {
    Encoding,
}

/// `csv::Writer::write_record` on a fresh writer over an empty buffer, made
/// by `csv::WriterBuilder` as the log's writer is, then
/// `csv::Writer::into_inner`. Writing fails only where the buffer refuses
/// bytes or where a record has another number of fields than the first one
/// written; a fresh writer over a vector knows neither, so both calls
/// succeed. The buffer then holds the bytes of that one record, which depend
/// on the fields alone; the contract gives them their name.
#[verifier::external_body]
fn encode_record(fields: &Vec<String>) -> (r: Result<Vec<u8>, csv::Error>)
    ensures
        r is Ok,
        r matches Ok(bytes) ==> bytes@ == csv_record(row_view(fields@)),
{
    let mut writer = csv::WriterBuilder::new().has_headers(true).from_writer(Vec::new());
    match writer.write_record(fields) {
        Ok(()) => match writer.into_inner() {
            Ok(bytes) => Ok(bytes),
            Err(error) => Err(csv::Error::from(error.into_error())),
        },
        Err(error) => Err(error),
    }
}

/// `chrono::Local::now`, then `chrono::DateTime::to_rfc3339`: the local
/// time of the call as text. Nothing is claimed of the text.
#[verifier::external_body]
fn local_time_text() -> String {
    chrono::Local::now().to_rfc3339()
}

/// The bytes of the entries, one record behind the other.
pub open spec fn encoded_spec(entries: Seq<Seq<Seq<char>>>) -> Seq<u8>
    decreases entries.len(),
{
    if entries.len() == 0 {
        Seq::empty()
    } else {
        encoded_spec(entries.drop_last()) + csv_record(entries.last())
    }
}

/// Adds an encoded record to the bytes gathered so far, or gives the run up
/// where the record could not be encoded.
pub fn extend_log(log: &mut Vec<u8>, line: Result<Vec<u8>, csv::Error>) -> (r: Result<
    (),
    WriteError,
>)
    ensures
        match line {
            Ok(bytes) => r is Ok && final(log)@ == old(log)@ + bytes@,
            Err(_) => r == Err::<(), WriteError>(WriteError::Encoding) && final(log)@ == old(
                log,
            )@,
        },
{
    match line {
        Ok(bytes) => {
            let mut bytes = bytes;
            log.append(&mut bytes);
            Ok(())
        },
        Err(_) => Err(WriteError::Encoding),
    }
}

/// Encodes the entries for the log, one record behind the other.
pub fn encode_entries(entries: &Vec<Vec<String>>) -> (r: Result<Vec<u8>, WriteError>)
    ensures
        r matches Ok(bytes) && bytes@ == encoded_spec(rows_view(entries@)),
{
    let ghost views = rows_view(entries@);
    let mut log: Vec<u8> = Vec::new();
    let mut i: usize = 0;
    while i < entries.len()
        invariant
            i <= entries.len(),
            views == rows_view(entries@),
            log@ == encoded_spec(views.take(i as int)),
        decreases entries.len() - i,
    {
        proof {
            assert(views.take(i + 1).drop_last() =~= views.take(i as int));
            assert(views.take(i + 1).last() == row_view(entries@[i as int]@));
        }
        let line = encode_record(&entries[i]);
        match extend_log(&mut log, line) {
            Ok(()) => {},
            Err(error) => {
                return Err(error);
            },
        }
        i += 1;
    }
    assert(views.take(i as int) =~= views);
    Ok(log)
}

/// The entries of a run that begins now: every row carries the time at
/// which this was called, which is handed out with them.
pub fn stamped_entries(log_is_empty: bool, records: &Vec<ValuationRecord>) -> (r: (
    String,
    Vec<Vec<String>>,
))
    ensures
        rows_view(r.1@) == entries_spec(log_is_empty, r.0@, record_views(records@)),
{
    let timestamp = local_time_text();
    let rows = entries(log_is_empty, &timestamp, records);
    (timestamp, rows)
}

} // verus!
