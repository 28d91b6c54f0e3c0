//! The one request of a run, and what is made of the answer.

use vstd::prelude::*;
use vstd::string::StringExecFns;
use serde_json::Value;
use crate::holding::{Configuration, holding_views};
use crate::json::{json_document, parse};
use crate::query::{joined_symbols, symbol_query};

verus! {

/// A name with its value: a header of the request or a parameter of its
/// query.
#[derive(Clone, Debug)]
pub struct Pair {
    pub name: String,
    pub value: String,
}

/// What is asked of the quote service: one `GET` for every symbol at once.
#[derive(Clone, Debug)]
pub struct QuoteRequest {
    pub url: String,
    pub headers: Vec<Pair>,
    pub query: Vec<Pair>,
}

/// Why no quotes were had.
#[derive(Clone, Copy, Debug, PartialEq, Eq, Structural)]
pub enum FetchError {
    /// The request did not get through, or no answer came back.
    Network,
    /// The service answered with a status that is no success.
    Status(u16),
    /// The answer's body is no JSON text.
    Body,
}

pub open spec fn endpoint() -> Seq<char> {
    "https://pro-api.coinmarketcap.com/v1/cryptocurrency/quotes/latest"@
}

/// Whether `pair` holds this name and this value.
pub open spec fn pair_is(pair: Pair, name: Seq<char>, value: Seq<char>) -> bool {
    pair.name@ == name && pair.value@ == value
}

/// A status from 200 to 299.
pub open spec fn is_success(status: u16) -> bool {
    200 <= status <= 299
}

/// The request for the quotes of every holding: the credential travels in a
/// header, the symbols in one parameter with commas between them.
pub fn quote_request(configuration: &Configuration) -> (r: QuoteRequest)
    ensures
        r.url@ == endpoint(),
        r.headers@.len() == 2,
        pair_is(r.headers@[0], "Accepts"@, "application/json"@),
        pair_is(r.headers@[1], "X-CMC_PRO_API_KEY"@, configuration.credential@),
        r.query@.len() == 1,
        pair_is(
            r.query@[0],
            "symbol"@,
            joined_symbols(holding_views(configuration.holdings@)),
        ),
{
    let mut headers: Vec<Pair> = Vec::new();
    headers.push(
        Pair { name: String::from_str("Accepts"), value: String::from_str("application/json") },
    );
    headers.push(
        Pair {
            name: String::from_str("X-CMC_PRO_API_KEY"),
            value: configuration.credential.clone(),
        },
    );
    let mut query: Vec<Pair> = Vec::new();
    query.push(
        Pair { name: String::from_str("symbol"), value: symbol_query(&configuration.holdings) },
    );
    QuoteRequest {
        url: String::from_str(
            "https://pro-api.coinmarketcap.com/v1/cryptocurrency/quotes/latest",
        ),
        headers,
        query,
    }
}

/// Whether `r` is what an answer with this status and this body is taken
/// as: the parsed body of a success, the status of any other answer, and a
/// fault of the body where a success carries no JSON text.
pub open spec fn taken_as(r: Result<Value, FetchError>, status: u16, body: Seq<u8>) -> bool {
    match r {
        Ok(document) => is_success(status) && json_document(body) == Some(document),
        Err(FetchError::Status(code)) => !is_success(status) && code == status,
        Err(FetchError::Body) => is_success(status) && json_document(body) is None,
        Err(FetchError::Network) => false,
    }
}

/// Takes the service's answer by its status and body.
pub fn read_response(status: u16, body: &[u8]) -> (r: Result<Value, FetchError>)
    ensures
        taken_as(r, status, body@),
{
    if status < 200 || status > 299 {
        return Err(FetchError::Status(status));
    }
    match parse(body) {
        Ok(document) => Ok(document),
        Err(_) => Err(FetchError::Body),
    }
}

/// Takes what the request brought back: an answer with its status and body,
/// or nothing where the request did not get through.
pub fn read_answer(answer: Option<(u16, Vec<u8>)>) -> (r: Result<Value, FetchError>)
    ensures
        match answer {
            Some((status, body)) => taken_as(r, status, body@),
            None => r == Err::<Value, FetchError>(FetchError::Network),
        },
{
    match answer {
        Some((status, body)) => read_response(status, body.as_slice()),
        None => Err(FetchError::Network),
    }
}

} // verus!
