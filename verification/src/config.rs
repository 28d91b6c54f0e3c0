//! Loading the configuration: the credential and the holdings.
//!
//! The configuration is a JSON object with a string `credential` and an
//! array `holdings` of objects, each with a string `symbol` and the numbers
//! `investment` and `purchasePrice`. Nothing is supplied for a field that is
//! absent. An investment is an amount of money: it is taken in micro-units,
//! and what it has below a whole micro-unit is cut off. A purchase price is
//! taken with every digit it is written with.

use vstd::prelude::*;
use vstd::string::StringExecFns;
use serde_json::Value;
use crate::holding::{Configuration, ConfigurationView, Holding, HoldingView, holding_views};
use crate::json::{
    items,
    json_document,
    json_items,
    json_member,
    json_number_text,
    json_text,
    member,
    number_text,
    parse,
    text,
};
use crate::number_text::{Decimal, Reading, micros_spec, parse_decimal, parse_micros, reading_spec};

verus! {

/// Why a configuration could not be loaded.
#[derive(Clone, Copy, Debug, PartialEq, Eq, Structural)]
pub enum ConfigError {
    /// The configuration could not be read at all.
    MissingFile,
    /// What was read is no JSON text, or a field holds a value of the wrong
    /// kind: a text where a number belongs, a number below zero, an
    /// investment too large for an amount, a purchase price that a
    /// `Decimal` cannot hold.
    Parse,
    /// A required field is absent.
    MissingField,
}

/// The text under `key`.
pub open spec fn text_field_spec(object: Value, key: Seq<char>) -> Result<Seq<char>, ConfigError> {
    match json_member(object, key) {
        None => Err(ConfigError::MissingField),
        Some(value) => match json_text(value) {
            None => Err(ConfigError::Parse),
            Some(characters) => Ok(characters),
        },
    }
}

/// The unit price under `key`, with every digit it is written with.
pub open spec fn price_field_spec(object: Value, key: Seq<char>) -> Result<Decimal, ConfigError> {
    match json_member(object, key) {
        None => Err(ConfigError::MissingField),
        Some(value) => match json_number_text(value) {
            None => Err(ConfigError::Parse),
            Some(digits) => match reading_spec(digits) {
                Reading::Number(price) => Ok(price),
                _ => Err(ConfigError::Parse),
            },
        },
    }
}

/// The amount under `key`, in micro-units, cut to a whole one.
pub open spec fn amount_field_spec(object: Value, key: Seq<char>) -> Result<u64, ConfigError> {
    match json_member(object, key) {
        None => Err(ConfigError::MissingField),
        Some(value) => match json_number_text(value) {
            None => Err(ConfigError::Parse),
            Some(digits) => match micros_spec(digits) {
                None => Err(ConfigError::Parse),
                Some(amount) => Ok(amount),
            },
        },
    }
}

/// The holding that `item` describes; of several faults the one of the
/// earliest field counts, in the order symbol, investment, purchase price.
pub open spec fn holding_spec(item: Value) -> Result<HoldingView, ConfigError> {
    match text_field_spec(item, "symbol"@) {
        Err(e) => Err(e),
        Ok(symbol) => match amount_field_spec(item, "investment"@) {
            Err(e) => Err(e),
            Ok(investment) => match price_field_spec(item, "purchasePrice"@) {
                Err(e) => Err(e),
                Ok(purchase_price) => Ok(HoldingView { symbol, investment, purchase_price }),
            },
        },
    }
}

/// The holdings that `items` describe, in their order; the fault of the
/// earliest faulty item counts.
pub open spec fn holdings_spec(items: Seq<Value>) -> Result<Seq<HoldingView>, ConfigError>
    decreases items.len(),
{
    if items.len() == 0 {
        Ok(Seq::empty())
    } else {
        match holdings_spec(items.drop_last()) {
            Err(e) => Err(e),
            Ok(earlier) => match holding_spec(items.last()) {
                Err(e) => Err(e),
                Ok(holding) => Ok(earlier.push(holding)),
            },
        }
    }
}

/// The configuration that `document` describes.
pub open spec fn configuration_spec(document: Value) -> Result<ConfigurationView, ConfigError> {
    match text_field_spec(document, "credential"@) {
        Err(e) => Err(e),
        Ok(credential) => match json_member(document, "holdings"@) {
            None => Err(ConfigError::MissingField),
            Some(list) => match json_items(list) {
                None => Err(ConfigError::Parse),
                Some(items) => match holdings_spec(items) {
                    Err(e) => Err(e),
                    Ok(holdings) => Ok(ConfigurationView { credential, holdings }),
                },
            },
        },
    }
}

/// The configuration that the bytes are the JSON text of.
pub open spec fn load_spec(bytes: Seq<u8>) -> Result<ConfigurationView, ConfigError> {
    match json_document(bytes) {
        None => Err(ConfigError::Parse),
        Some(document) => configuration_spec(document),
    }
}

/// Whether `r` is the outcome that `expected` describes.
pub open spec fn loaded_as(
    r: Result<Configuration, ConfigError>,
    expected: Result<ConfigurationView, ConfigError>,
) -> bool {
    match (r, expected) {
        (Ok(configuration), Ok(view)) => configuration@ == view,
        (Err(e), Err(f)) => e == f,
        _ => false,
    }
}

fn text_field(object: &Value, key: &str) -> (r: Result<String, ConfigError>)
    ensures
        match (r, text_field_spec(*object, key@)) {
            (Ok(characters), Ok(expected)) => characters@ == expected,
            (Err(e), Err(f)) => e == f,
            _ => false,
        },
{
    match member(object, key) {
        None => Err(ConfigError::MissingField),
        Some(value) => match text(value) {
            None => Err(ConfigError::Parse),
            Some(characters) => Ok(String::from_str(characters)),
        },
    }
}

fn amount_field(object: &Value, key: &str) -> (r: Result<u64, ConfigError>)
    ensures
        r == amount_field_spec(*object, key@),
{
    match member(object, key) {
        None => Err(ConfigError::MissingField),
        Some(value) => match number_text(value) {
            None => Err(ConfigError::Parse),
            Some(digits) => match parse_micros(digits.as_slice()) {
                None => Err(ConfigError::Parse),
                Some(amount) => Ok(amount),
            },
        },
    }
}

fn price_field(object: &Value, key: &str) -> (r: Result<Decimal, ConfigError>)
    ensures
        r == price_field_spec(*object, key@),
{
    match member(object, key) {
        None => Err(ConfigError::MissingField),
        Some(value) => match number_text(value) {
            None => Err(ConfigError::Parse),
            Some(digits) => match parse_decimal(digits.as_slice()) {
                Reading::Number(price) => Ok(price),
                _ => Err(ConfigError::Parse),
            },
        },
    }
}

fn holding_from(item: &Value) -> (r: Result<Holding, ConfigError>)
    ensures
        match (r, holding_spec(*item)) {
            (Ok(holding), Ok(expected)) => holding@ == expected,
            (Err(e), Err(f)) => e == f,
            _ => false,
        },
{
    let symbol = match text_field(item, "symbol") {
        Ok(symbol) => symbol,
        Err(e) => {
            return Err(e);
        },
    };
    let investment = match amount_field(item, "investment") {
        Ok(amount) => amount,
        Err(e) => {
            return Err(e);
        },
    };
    let purchase_price = match price_field(item, "purchasePrice") {
        Ok(amount) => amount,
        Err(e) => {
            return Err(e);
        },
    };
    Ok(Holding { symbol, investment, purchase_price })
}

/// Reads the configuration out of a parsed document.
pub fn configuration_from(document: &Value) -> (r: Result<Configuration, ConfigError>)
    ensures
        loaded_as(r, configuration_spec(*document)),
{
    let credential = match text_field(document, "credential") {
        Ok(credential) => credential,
        Err(e) => {
            return Err(e);
        },
    };
    let list = match member(document, "holdings") {
        Some(list) => list,
        None => {
            return Err(ConfigError::MissingField);
        },
    };
    let entries = match items(list) {
        Some(entries) => entries,
        None => {
            return Err(ConfigError::Parse);
        },
    };
    let mut holdings: Vec<Holding> = Vec::new();
    let mut i: usize = 0;
    while i < entries.len()
        invariant
            i <= entries.len(),
            text_field_spec(*document, "credential"@) == Ok::<Seq<char>, ConfigError>(
                credential@,
            ),
            json_member(*document, "holdings"@) == Some(*list),
            json_items(*list) == Some(entries@),
            holdings_spec(entries@.take(i as int)) is Ok,
            holdings_spec(entries@.take(i as int))->Ok_0 =~= holding_views(holdings@),
        decreases entries.len() - i,
    {
        proof {
            assert(entries@.take(i + 1).drop_last() =~= entries@.take(i as int));
            assert(entries@.take(i + 1).last() == entries@[i as int]);
        }
        let ghost earlier = holding_views(holdings@);
        match holding_from(&entries[i]) {
            Ok(holding) => {
                holdings.push(holding);
                assert(holding_views(holdings@) =~= earlier.push(holding@));
            },
            Err(e) => {
                proof {
                    lemma_fault_stays(entries@, i + 1);
                }
                return Err(e);
            },
        }
        i += 1;
    }
    assert(entries@.take(i as int) =~= entries@);
    Ok(Configuration { credential, holdings })
}

/// The holdings load item by item: all of them do exactly when each item
/// does, and then there is one holding for each item, in the order of the
/// items, whether or not two of them share a symbol.
pub proof fn holdings_load_item_by_item(items: Seq<Value>)
    ensures
        holdings_spec(items) is Ok <==> forall|i: int|
            0 <= i < items.len() ==> holding_spec(#[trigger] items[i]) is Ok,
        holdings_spec(items) matches Ok(holdings) ==> holdings.len() == items.len() && forall|
            i: int,
        |
            0 <= i < items.len() ==> holding_spec(#[trigger] items[i]) == Ok::<
                HoldingView,
                ConfigError,
            >(holdings[i]),
    decreases items.len(),
{
    if items.len() > 0 {
        let earlier = items.drop_last();
        holdings_load_item_by_item(earlier);
        assert forall|i: int| 0 <= i < earlier.len() implies earlier[i] == items[i] by {}
        if holdings_spec(items) is Ok {
            assert forall|i: int| 0 <= i < items.len() implies holding_spec(
                #[trigger] items[i],
            ) is Ok by {
                if i < earlier.len() {
                    assert(earlier[i] == items[i]);
                }
            }
        }
        if forall|i: int| 0 <= i < items.len() ==> holding_spec(#[trigger] items[i]) is Ok {
            assert forall|i: int| 0 <= i < earlier.len() implies holding_spec(
                #[trigger] earlier[i],
            ) is Ok by {
                assert(earlier[i] == items[i]);
            }
            assert(holding_spec(items[items.len() - 1]) is Ok);
        }
        if let Ok(holdings) = holdings_spec(items) {
            let before = holdings_spec(earlier)->Ok_0;
            assert forall|i: int| 0 <= i < items.len() implies holding_spec(
                #[trigger] items[i],
            ) == Ok::<HoldingView, ConfigError>(holdings[i]) by {
                if i < earlier.len() {
                    assert(earlier[i] == items[i]);
                    assert(holdings[i] == before[i]);
                }
            }
        }
    }
}

/// Whether `item` describes a holding: a text as its symbol, a number that
/// an amount holds as its investment, and a number that a `Decimal` holds
/// as its purchase price.
pub open spec fn describes_holding(item: Value) -> bool {
    &&& text_field_spec(item, "symbol"@) is Ok
    &&& amount_field_spec(item, "investment"@) is Ok
    &&& price_field_spec(item, "purchasePrice"@) is Ok
}

/// Whether `document` describes a configuration: a text as its credential
/// and an array as its holdings, every element of which describes a
/// holding.
pub open spec fn describes_configuration(document: Value) -> bool {
    &&& text_field_spec(document, "credential"@) is Ok
    &&& json_member(document, "holdings"@) matches Some(list) && json_items(list) matches Some(
        items,
    ) && forall|i: int| 0 <= i < items.len() ==> describes_holding(#[trigger] items[i])
}

/// Loading succeeds exactly on a document that describes a configuration,
/// and then keeps every holding of it, in the order of the document.
pub proof fn loading_succeeds_exactly_on_configurations(document: Value)
    ensures
        configuration_spec(document) is Ok <==> describes_configuration(document),
        configuration_spec(document) matches Ok(configuration) ==> {
            let items = json_items(json_member(document, "holdings"@)->Some_0)->Some_0;
            &&& configuration.holdings.len() == items.len()
            &&& forall|i: int|
                0 <= i < items.len() ==> holding_spec(#[trigger] items[i]) == Ok::<
                    HoldingView,
                    ConfigError,
                >(configuration.holdings[i])
        },
{
    if let Some(list) = json_member(document, "holdings"@) {
        if let Some(items) = json_items(list) {
            holdings_load_item_by_item(items);
            assert forall|i: int| 0 <= i < items.len() implies (describes_holding(
                #[trigger] items[i],
            ) <==> holding_spec(items[i]) is Ok) by {}
        }
    }
}

/// Once the first `n` items hold a fault, so do all of them, and it is the
/// same fault.
proof fn lemma_fault_stays(items: Seq<Value>, n: int)
    requires
        0 <= n <= items.len(),
        holdings_spec(items.take(n)) is Err,
    ensures
        holdings_spec(items) == holdings_spec(items.take(n)),
    decreases items.len() - n,
{
    if n < items.len() {
        assert(items.take(n + 1).drop_last() =~= items.take(n));
        lemma_fault_stays(items, n + 1);
    } else {
        assert(items.take(n) =~= items);
    }
}

/// What loading gives for what reading the configuration gave: the bytes
/// read, or nothing where they could not be read.
pub open spec fn load_read_spec(contents: Option<Seq<u8>>) -> Result<
    ConfigurationView,
    ConfigError,
> {
    match contents {
        Some(bytes) => load_spec(bytes),
        None => Err(ConfigError::MissingFile),
    }
}

/// Loads the configuration from what reading it gave.
pub fn load_read(contents: Option<Vec<u8>>) -> (r: Result<Configuration, ConfigError>)
    ensures
        loaded_as(
            r,
            load_read_spec(
                match contents {
                    Some(bytes) => Some(bytes@),
                    None => None,
                },
            ),
        ),
{
    match contents {
        Some(bytes) => load_configuration(bytes.as_slice()),
        None => Err(ConfigError::MissingFile),
    }
}

/// Loads the configuration from the bytes of its JSON text.
pub fn load_configuration(bytes: &[u8]) -> (r: Result<Configuration, ConfigError>)
    ensures
        loaded_as(r, load_spec(bytes@)),
{
    match parse(bytes) {
        Ok(document) => configuration_from(&document),
        Err(_) => Err(ConfigError::Parse),
    }
}

} // verus!
