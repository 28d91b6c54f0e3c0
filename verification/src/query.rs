//! The one query that asks the quote service for every symbol at once.

use vstd::prelude::*;
use vstd::string::StringExecFns;
use crate::holding::{Holding, HoldingView, holding_views};

verus! {

/// The symbols of `holdings`, in order, with a comma between neighbours.
pub open spec fn joined_symbols(holdings: Seq<HoldingView>) -> Seq<char>
    decreases holdings.len(),
{
    if holdings.len() == 0 {
        Seq::empty()
    } else if holdings.len() == 1 {
        holdings[0].symbol
    } else {
        joined_symbols(holdings.drop_last()) + seq![','] + holdings.last().symbol
    }
}

/// The value of the query parameter that names every holding's symbol, so
/// that one request serves them all.
pub fn symbol_query(holdings: &Vec<Holding>) -> (r: String)
    ensures
        r@ == joined_symbols(holding_views(holdings@)),
{
    let ghost hs = holding_views(holdings@);
    let mut query = String::new();
    let mut i: usize = 0;
    while i < holdings.len()
        invariant
            i <= holdings.len(),
            hs == holding_views(holdings@),
            query@ == joined_symbols(hs.take(i as int)),
        decreases holdings.len() - i,
    {
        proof {
            reveal_strlit(",");
            assert(hs.take(i + 1).drop_last() =~= hs.take(i as int));
            assert(hs.take(i + 1).last() == hs[i as int]);
            assert(","@ =~= seq![',']);
        }
        if i > 0 {
            query.append(",");
        }
        query.append(holdings[i].symbol.as_str());
        assert(query@ =~= joined_symbols(hs.take(i + 1)));
        i += 1;
    }
    assert(hs.take(i as int) =~= hs);
    query
}

} // verus!
