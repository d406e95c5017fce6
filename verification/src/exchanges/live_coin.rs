//! Livecoin: one request for all markets, each reported under its symbol.
use vstd::prelude::*;

use crate::exchanges::listing::{collect_listed, listed_tickers, ticker_reports, SymbolTicker};
use crate::exchanges::{CurrencyPair, CurrencyPairList};
use crate::table::TickerTable;
use crate::text::{join_with, str_upper, to_upper};

verus! {

/// Livecoin's symbol of a pair: `"{quote}/{base}"` in upper case.
pub open spec fn live_coin_symbol(pair: CurrencyPair) -> Seq<char> {
    str_upper(pair.quote@ + seq!['/'] + pair.base@)
}

/// Livecoin spells a pair's symbol exactly so, for every pair.
pub proof fn lemma_symbol_spelling(pair: CurrencyPair)
    ensures
        live_coin_symbol(pair) == str_upper(pair.quote@ + seq!['/'] + pair.base@),
{
    assert(live_coin_symbol(pair) =~= str_upper(pair.quote@ + seq!['/'] + pair.base@));
}

/// Livecoin's symbol of a pair.
pub fn symbol_of(pair: &CurrencyPair) -> (s: String)
    ensures
        s@ == live_coin_symbol(*pair),
        s@ == str_upper(pair.quote@ + seq!['/'] + pair.base@),
{
    let name = join_with(pair.quote.as_str(), "/", pair.base.as_str());
    proof {
        reveal_strlit("/");
        assert(name@ =~= pair.quote@ + seq!['/'] + pair.base@);
    }
    to_upper(name.as_str())
}

/// Livecoin, asked for a list of pairs.
pub struct LiveCoin<'a> {
    pairs: CurrencyPairList<'a>,
}

impl<'a> LiveCoin<'a> {
    /// The pairs, each with Livecoin's symbol.
    pub closed spec fn pair_list(&self) -> CurrencyPairList<'a> {
        self.pairs
    }

    /// Lists the pairs under Livecoin's symbols.
    pub fn new(currency_pairs: &'a Vec<CurrencyPair>) -> (x: Self)
        ensures
            x.pair_list().wf(),
            x.pair_list().pairs() == currency_pairs@,
            x.pair_list().symbols() == currency_pairs@.map_values(|p: CurrencyPair| live_coin_symbol(p)),
            forall|i: int|
                0 <= i < currency_pairs@.len() ==> #[trigger] x.pair_list().symbols()[i] == str_upper(currency_pairs@[i].quote@ + seq!['/'] + currency_pairs@[i].base@),
    {
        let pairs = CurrencyPairList::new(currency_pairs, symbol_of);
        assert(pairs.symbols() =~= currency_pairs@.map_values(|p: CurrencyPair| live_coin_symbol(p))) by {
            assert forall|i: int| 0 <= i < pairs.symbols().len() implies pairs.symbols()[i] == live_coin_symbol(
                currency_pairs@[i],
            ) by {
                assert(call_ensures(symbol_of, (&currency_pairs@[i],), pairs.symbol_strings()[i]));
            }
        }
        LiveCoin { pairs }
    }

    /// The tickers of the reports in a response whose symbol names a listed
    /// pair, under the pair's name; a later report for a pair replaces an
    /// earlier one.
    pub fn tickers(&self, response: &Vec<SymbolTicker>) -> (t: TickerTable)
        ensures
            t@ == listed_tickers(self.pair_list(), ticker_reports(response@)),
    {
        collect_listed(&self.pairs, response)
    }

}

} // verus!
