//! What the portfolio holds, and the quotes it is valued against.

use vstd::prelude::*;
use crate::number_text::Decimal;

verus! {

/// A unit price as the valuation takes it.
#[derive(Clone, Copy, Debug, PartialEq, Eq, Structural)]
pub enum Price {
    /// The price with every digit it was quoted with.
    Known(Decimal),
    /// A price was quoted, but with more digits or a larger exponent than a
    /// `Decimal` holds.
    OutOfRange,
}

/// One tracked asset: what was paid for it in all, in micro-units, and the
/// unit price paid, with every digit it was written with.
#[derive(Clone, Debug)]
pub struct Holding {
    pub symbol: String,
    pub investment: u64,
    pub purchase_price: Decimal,
}

/// A holding with its symbol as a sequence of characters.
pub struct HoldingView {
    pub symbol: Seq<char>,
    pub investment: u64,
    pub purchase_price: Decimal,
}

impl View for Holding {
    type V = HoldingView;

    open spec fn view(&self) -> HoldingView {
        HoldingView {
            symbol: self.symbol@,
            investment: self.investment,
            purchase_price: self.purchase_price,
        }
    }
}

/// The holdings in the order in which they were given, together with the
/// credential for the quote service. Two holdings may share a symbol: each
/// then counts for itself.
#[derive(Clone, Debug)]
pub struct Configuration {
    pub credential: String,
    pub holdings: Vec<Holding>,
}

/// A configuration with its texts as sequences of characters.
pub struct ConfigurationView {
    pub credential: Seq<char>,
    pub holdings: Seq<HoldingView>,
}

impl View for Configuration {
    type V = ConfigurationView;

    open spec fn view(&self) -> ConfigurationView {
        ConfigurationView {
            credential: self.credential@,
            holdings: holding_views(self.holdings@),
        }
    }
}

/// The current unit price of one symbol.
#[derive(Clone, Debug)]
pub struct Quote {
    pub symbol: String,
    pub price: Price,
}

/// A quote with its symbol as a sequence of characters.
pub struct QuoteView {
    pub symbol: Seq<char>,
    pub price: Price,
}

impl View for Quote {
    type V = QuoteView;

    open spec fn view(&self) -> QuoteView {
        QuoteView { symbol: self.symbol@, price: self.price }
    }
}

pub open spec fn holding_views(holdings: Seq<Holding>) -> Seq<HoldingView> {
    Seq::new(holdings.len(), |i: int| holdings[i]@)
}

pub open spec fn quote_views(quotes: Seq<Quote>) -> Seq<QuoteView> {
    Seq::new(quotes.len(), |i: int| quotes[i]@)
}

/// Whether some quote among `quotes` is for `symbol`.
pub open spec fn is_quoted(quotes: Seq<QuoteView>, symbol: Seq<char>) -> bool {
    exists|i: int| 0 <= i < quotes.len() && #[trigger] quotes[i].symbol == symbol
}

/// The place of the first quote for `symbol`, where there is one.
pub open spec fn first_quote_of(quotes: Seq<QuoteView>, symbol: Seq<char>) -> int {
    choose|i: int|
        0 <= i < quotes.len() && #[trigger] quotes[i].symbol == symbol && forall|j: int|
            0 <= j < i ==> #[trigger] quotes[j].symbol != symbol
}

/// The price that the quotes give for `symbol`: that of the first quote for
/// it, if there is one.
pub open spec fn quoted_price(quotes: Seq<QuoteView>, symbol: Seq<char>) -> Option<Price> {
    if is_quoted(quotes, symbol) {
        Some(quotes[first_quote_of(quotes, symbol)].price)
    } else {
        None
    }
}

/// The price of what has no quote: zero.
pub open spec fn zero_price() -> Price {
    Price::Known(Decimal { mantissa: 0, exponent: 0 })
}

/// The price a holding is valued at: the quoted one, and zero for a symbol
/// without a quote.
pub open spec fn price_or_zero(quotes: Seq<QuoteView>, symbol: Seq<char>) -> Price {
    match quoted_price(quotes, symbol) {
        Some(p) => p,
        None => zero_price(),
    }
}

/// Looks `symbol` up among the quotes.
pub fn find_price(quotes: &Vec<Quote>, symbol: &String) -> (r: Option<Price>)
    ensures
        r == quoted_price(quote_views(quotes@), symbol@),
{
    let ghost qs = quote_views(quotes@);
    let mut i: usize = 0;
    while i < quotes.len()
        invariant
            i <= quotes.len(),
            qs == quote_views(quotes@),
            forall|j: int| 0 <= j < i ==> #[trigger] qs[j].symbol != symbol@,
        decreases quotes.len() - i,
    {
        if quotes[i].symbol == *symbol {
            proof {
                let k = i as int;
                assert(qs[k].symbol == symbol@);
                assert(is_quoted(qs, symbol@));
                let f = first_quote_of(qs, symbol@);
                assert(f == k) by {
                    if f < k {
                        assert(qs[f].symbol != symbol@);
                    }
                    if k < f {
                        assert(qs[k].symbol != symbol@);
                    }
                }
            }
            return Some(quotes[i].price);
        }
        i += 1;
    }
    None
}

/// The price to value `symbol` at: zero where no quote is for it.
pub fn lookup_price(quotes: &Vec<Quote>, symbol: &String) -> (r: Price)
    ensures
        r == price_or_zero(quote_views(quotes@), symbol@),
{
    match find_price(quotes, symbol) {
        Some(p) => p,
        None => Price::Known(Decimal { mantissa: 0, exponent: 0 }),
    }
}

} // verus!
