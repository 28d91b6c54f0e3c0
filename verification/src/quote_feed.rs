//! Reading prices out of the quote service's response.
//!
//! The response is a JSON document that holds the price of a symbol under
//! `data.<symbol>.quote.USD.price`.

use vstd::prelude::*;
use serde_json::Value;
use crate::json::{json_member, json_number_text, member, number_text};
use crate::holding::{
    Holding,
    HoldingView,
    Price,
    Quote,
    QuoteView,
    first_quote_of,
    holding_views,
    is_quoted,
    price_or_zero,
    quote_views,
    zero_price,
};
use crate::number_text::{Reading, parse_decimal, reading_spec};
use crate::summary::{Valuation, evaluate, summary_spec};
use crate::valuation::{RecordView, record_spec, record_views};

verus! {

/// The member of `node` under `key`, where there is a node.
pub open spec fn member_of(node: Option<Value>, key: Seq<char>) -> Option<Value> {
    match node {
        Some(value) => json_member(value, key),
        None => None,
    }
}

/// The value that the response holds as the price of `symbol`.
pub open spec fn price_node_spec(response: Value, symbol: Seq<char>) -> Option<Value> {
    member_of(
        member_of(
            member_of(member_of(json_member(response, "data"@), symbol), "quote"@),
            "USD"@,
        ),
        "price"@,
    )
}

/// The decimal text that the response holds as the price of `symbol`.
pub open spec fn price_text_spec(response: Value, symbol: Seq<char>) -> Option<Seq<u8>> {
    match price_node_spec(response, symbol) {
        Some(node) => json_number_text(node),
        None => None,
    }
}

fn step<'a>(node: Option<&'a Value>, key: &str) -> (r: Option<&'a Value>)
    ensures
        match r {
            Some(found) => node is Some && json_member(*node->0, key@) == Some(*found),
            None => node is None || json_member(*node->0, key@) is None,
        },
{
    match node {
        Some(value) => member(value, key),
        None => None,
    }
}

/// Walks the response down to the price of `symbol` and reads its text.
pub fn price_text(response: &Value, symbol: &String) -> (r: Option<Vec<u8>>)
    ensures
        match r {
            Some(text) => price_text_spec(*response, symbol@) == Some(text@),
            None => price_text_spec(*response, symbol@) is None,
        },
{
    let data = member(response, "data");
    let entry = step(data, symbol.as_str());
    let quote = step(entry, "quote");
    let usd = step(quote, "USD");
    let price = step(usd, "price");
    match price {
        Some(node) => number_text(node),
        None => None,
    }
}

/// What a number's text gives as a price: nothing where it is no number.
pub open spec fn price_of_reading(reading: Reading) -> Option<Price> {
    match reading {
        Reading::Number(d) => Some(Price::Known(d)),
        Reading::OutOfRange => Some(Price::OutOfRange),
        Reading::NoNumber => None,
    }
}

/// The price that the response gives for `symbol`, with every digit it is
/// written with. There is none where the path to it breaks off, where what
/// stands there is no number, and where the number is below zero. A number
/// that a `Decimal` cannot hold is a price out of range.
pub open spec fn response_price_spec(response: Value, symbol: Seq<char>) -> Option<Price> {
    match price_text_spec(response, symbol) {
        Some(text) => price_of_reading(reading_spec(text)),
        None => None,
    }
}

/// The quotes that the response holds for `holdings`: one for each holding
/// whose symbol has a price, in the order of the holdings.
pub open spec fn quotes_spec(response: Value, holdings: Seq<HoldingView>) -> Seq<QuoteView>
    decreases holdings.len(),
{
    if holdings.len() == 0 {
        Seq::empty()
    } else {
        let earlier = quotes_spec(response, holdings.drop_last());
        match response_price_spec(response, holdings.last().symbol) {
            Some(price) => earlier.push(QuoteView { symbol: holdings.last().symbol, price }),
            None => earlier,
        }
    }
}

/// Reads the price of `symbol` out of the response.
pub fn response_price(response: &Value, symbol: &String) -> (r: Option<Price>)
    ensures
        r == response_price_spec(*response, symbol@),
{
    match price_text(response, symbol) {
        Some(text) => match parse_decimal(text.as_slice()) {
            Reading::Number(d) => Some(Price::Known(d)),
            Reading::OutOfRange => Some(Price::OutOfRange),
            Reading::NoNumber => None,
        },
        None => None,
    }
}

/// Reads the quotes for `holdings` out of the response.
pub fn quotes_from_response(response: &Value, holdings: &Vec<Holding>) -> (r: Vec<Quote>)
    ensures
        quote_views(r@) == quotes_spec(*response, holding_views(holdings@)),
{
    let ghost hs = holding_views(holdings@);
    let mut quotes: Vec<Quote> = Vec::new();
    let mut i: usize = 0;
    while i < holdings.len()
        invariant
            i <= holdings.len(),
            hs == holding_views(holdings@),
            quote_views(quotes@) == quotes_spec(*response, hs.take(i as int)),
        decreases holdings.len() - i,
    {
        proof {
            assert(hs.take(i + 1).drop_last() =~= hs.take(i as int));
            assert(hs.take(i + 1).last() == holdings@[i as int]@);
        }
        let ghost earlier = quote_views(quotes@);
        match response_price(response, &holdings[i].symbol) {
            Some(price) => {
                quotes.push(Quote { symbol: holdings[i].symbol.clone(), price });
                assert(quote_views(quotes@) =~= earlier.push(
                    QuoteView { symbol: holdings@[i as int]@.symbol, price },
                ));
            },
            None => {},
        }
        i += 1;
    }
    assert(hs.take(i as int) =~= hs);
    quotes
}

/// The price a symbol is valued at from the response: the one read there,
/// and zero where there is none.
pub open spec fn response_price_or_zero(response: Value, symbol: Seq<char>) -> Price {
    match response_price_spec(response, symbol) {
        Some(price) => price,
        None => zero_price(),
    }
}

/// The records of `holdings` against the response: one for each holding, in
/// the same order, each at the price read for its symbol or at zero.
pub open spec fn response_records_spec(response: Value, holdings: Seq<HoldingView>) -> Seq<
    RecordView,
> {
    Seq::new(
        holdings.len(),
        |i: int| record_spec(holdings[i], response_price_or_zero(response, holdings[i].symbol)),
    )
}

/// Every quote read from the response carries the price that the response
/// gives for its symbol, and every holding whose symbol has a price there
/// has a quote.
pub proof fn quotes_match_response(response: Value, holdings: Seq<HoldingView>)
    ensures
        forall|j: int|
            0 <= j < quotes_spec(response, holdings).len() ==> response_price_spec(
                response,
                (#[trigger] quotes_spec(response, holdings)[j]).symbol,
            ) == Some(quotes_spec(response, holdings)[j].price),
        forall|i: int|
            0 <= i < holdings.len() && response_price_spec(
                response,
                (#[trigger] holdings[i]).symbol,
            ) is Some ==> is_quoted(quotes_spec(response, holdings), holdings[i].symbol),
    decreases holdings.len(),
{
    if holdings.len() > 0 {
        let earlier = quotes_spec(response, holdings.drop_last());
        let all = quotes_spec(response, holdings);
        let last = holdings.last();
        quotes_match_response(response, holdings.drop_last());
        assert forall|i: int|
            0 <= i < holdings.len() && response_price_spec(
                response,
                (#[trigger] holdings[i]).symbol,
            ) is Some implies is_quoted(all, holdings[i].symbol) by {
            if i < holdings.len() - 1 {
                assert(holdings.drop_last()[i] == holdings[i]);
                assert(is_quoted(earlier, holdings[i].symbol));
                let j = choose|j: int|
                    0 <= j < earlier.len() && #[trigger] earlier[j].symbol == holdings[i].symbol;
                assert(all[j].symbol == holdings[i].symbol);
            } else {
                assert(all[all.len() - 1].symbol == last.symbol);
            }
        }
    }
}

/// Looked up among the quotes read from the response, a holding's symbol
/// has the price that the response gives for it, or zero.
pub proof fn quotes_answer_for_holdings(response: Value, holdings: Seq<HoldingView>, i: int)
    requires
        0 <= i < holdings.len(),
    ensures
        price_or_zero(quotes_spec(response, holdings), holdings[i].symbol)
            == response_price_or_zero(response, holdings[i].symbol),
{
    let quotes = quotes_spec(response, holdings);
    let symbol = holdings[i].symbol;
    quotes_match_response(response, holdings);
    if is_quoted(quotes, symbol) {
        let first = first_quote_of(quotes, symbol);
        let j = choose|j: int| 0 <= j < quotes.len() && #[trigger] quotes[j].symbol == symbol;
        lemma_first_quote_exists(quotes, symbol, j);
        assert(quotes[first].symbol == symbol);
    }
}

/// Where a quote at place `j` is for `symbol`, a first such quote exists.
proof fn lemma_first_quote_exists(quotes: Seq<QuoteView>, symbol: Seq<char>, j: int)
    requires
        0 <= j < quotes.len(),
        quotes[j].symbol == symbol,
    ensures
        0 <= first_quote_of(quotes, symbol) < quotes.len(),
        quotes[first_quote_of(quotes, symbol)].symbol == symbol,
    decreases j,
{
    if exists|k: int| 0 <= k < j && #[trigger] quotes[k].symbol == symbol {
        let k = choose|k: int| 0 <= k < j && #[trigger] quotes[k].symbol == symbol;
        lemma_first_quote_exists(quotes, symbol, k);
    } else {
        assert(forall|k: int| 0 <= k < j ==> #[trigger] quotes[k].symbol != symbol);
    }
}

/// Values every holding at the price that the response gives for its
/// symbol, or at zero, and sums the records up.
pub fn evaluate_response(holdings: &Vec<Holding>, response: &Value) -> (r: Valuation)
    ensures
        record_views(r.records@) == response_records_spec(*response, holding_views(holdings@)),
        r.summary == summary_spec(record_views(r.records@)),
{
    let quotes = quotes_from_response(response, holdings);
    let valuation = evaluate(holdings, &quotes);
    proof {
        let hs = holding_views(holdings@);
        assert forall|i: int| 0 <= i < hs.len() implies price_or_zero(
            quote_views(quotes@),
            #[trigger] hs[i].symbol,
        ) == response_price_or_zero(*response, hs[i].symbol) by {
            quotes_answer_for_holdings(*response, hs, i);
        }
        assert(record_views(valuation.records@) =~= response_records_spec(*response, hs));
    }
    valuation
}

} // verus!
