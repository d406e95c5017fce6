//! Bittrex: one request for all markets, each reported under its market name.
use vstd::prelude::*;

use crate::exchanges::listing::{collect_listed, listed_tickers, ticker_reports, SymbolTicker};
use crate::exchanges::{CurrencyPair, CurrencyPairList};
use crate::table::TickerTable;
use crate::text::join_with;

verus! {

/// Bittrex's symbol of a pair: `"{base}-{quote}"`.
pub open spec fn bittrex_symbol(pair: CurrencyPair) -> Seq<char> {
    pair.base@ + seq!['-'] + pair.quote@
}

/// Bittrex spells a pair's symbol exactly so, for every pair.
pub proof fn lemma_symbol_spelling(pair: CurrencyPair)
    ensures
        bittrex_symbol(pair) == pair.base@ + seq!['-'] + pair.quote@,
{
    assert(bittrex_symbol(pair) =~= pair.base@ + seq!['-'] + pair.quote@);
}

/// Bittrex's symbol of a pair.
pub fn symbol_of(pair: &CurrencyPair) -> (s: String)
    ensures
        s@ == bittrex_symbol(*pair),
        s@ == pair.base@ + seq!['-'] + pair.quote@,
{
    let s = join_with(pair.base.as_str(), "-", pair.quote.as_str());
    proof {
        reveal_strlit("-");
    }
    s
}

/// Bittrex, asked for a list of pairs.
pub struct Bittrex<'a> {
    pairs: CurrencyPairList<'a>,
}

impl<'a> Bittrex<'a> {
    /// The pairs, each with Bittrex's symbol.
    pub closed spec fn pair_list(&self) -> CurrencyPairList<'a> {
        self.pairs
    }

    /// Lists the pairs under Bittrex's symbols.
    pub fn new(currency_pairs: &'a Vec<CurrencyPair>) -> (x: Self)
        ensures
            x.pair_list().wf(),
            x.pair_list().pairs() == currency_pairs@,
            x.pair_list().symbols() == currency_pairs@.map_values(|p: CurrencyPair| bittrex_symbol(p)),
            forall|i: int|
                0 <= i < currency_pairs@.len() ==> #[trigger] x.pair_list().symbols()[i] == currency_pairs@[i].base@ + seq!['-'] + currency_pairs@[i].quote@,
    {
        let pairs = CurrencyPairList::new(currency_pairs, symbol_of);
        assert(pairs.symbols() =~= currency_pairs@.map_values(|p: CurrencyPair| bittrex_symbol(p))) by {
            assert forall|i: int| 0 <= i < pairs.symbols().len() implies pairs.symbols()[i] == bittrex_symbol(
                currency_pairs@[i],
            ) by {
                assert(call_ensures(symbol_of, (&currency_pairs@[i],), pairs.symbol_strings()[i]));
            }
        }
        Bittrex { pairs }
    }

    /// The tickers of the reports in a response whose symbol names a listed
    /// pair, under the pair's name; a later report for a pair replaces an
    /// earlier one.
    pub fn tickers(&self, response: &Vec<SymbolTicker>) -> (t: TickerTable)
        ensures
            t@ == listed_tickers(self.pair_list(), ticker_reports(response@)),
    {
        collect_listed(&self.pairs, response)
    }

}

} // verus!
