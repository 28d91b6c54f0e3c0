//! Valuation of a portfolio of crypto-asset holdings against current quotes.
//!
//! A run loads the configuration, asks the quote service once for every
//! symbol, values each holding at its quoted price, appends one row for each
//! holding to the record log and shows a summary with two charts. This
//! library holds every step of that but the reading and writing themselves.
//!
//! Monetary amounts are whole numbers of micro-units (millionths of the
//! quote currency); an investment written finer than that is cut to a whole
//! micro-unit when it is loaded. Unit prices are decimals and keep every
//! digit they are written with; a current value is cut to a whole
//! micro-unit once, after the division. Rates are whole millionths of a percent, rounded away from
//! zero, so that a return is zero only where nothing was won or lost; the
//! summary rounds what it shows to two decimals. A result that has no
//! value, because a division by zero stands behind it or because it does
//! not fit its type, is `Undefined` and is carried through every later step.

pub mod config;
pub mod decimal;
pub mod holding;
pub mod json;
pub mod laws;
pub mod measure;
pub mod number_text;
pub mod query;
pub mod quote_feed;
pub mod record_log;
pub mod report;
pub mod request;
pub mod summary;
pub mod valuation;
