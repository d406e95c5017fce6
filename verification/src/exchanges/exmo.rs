//! EXMO: one request answered with an object keyed by symbol.
use vstd::prelude::*;

use crate::exchanges::listing::{pick_listed, picked, reports_by_symbol, table_of_reports, ticker_reports, SymbolTicker};
use crate::exchanges::{pair_name, CurrencyPair, CurrencyPairList};
use crate::table::TickerTable;
use crate::text::{join_with, str_upper, to_upper};

verus! {

/// EXMO's symbol of a pair: `"{quote}_{base}"` in upper case.
pub open spec fn exmo_symbol(pair: CurrencyPair) -> Seq<char> {
    str_upper(pair_name(pair.quote@, pair.base@))
}

/// EXMO spells a pair's symbol exactly so, for every pair.
pub proof fn lemma_symbol_spelling(pair: CurrencyPair)
    ensures
        exmo_symbol(pair) == str_upper(pair.quote@ + seq!['_'] + pair.base@),
{
    assert(exmo_symbol(pair) =~= str_upper(pair.quote@ + seq!['_'] + pair.base@));
}

/// EXMO's symbol of a pair.
pub fn symbol_of(pair: &CurrencyPair) -> (s: String)
    ensures
        s@ == exmo_symbol(*pair),
        s@ == str_upper(pair.quote@ + seq!['_'] + pair.base@),
{
    let name = join_with(pair.quote.as_str(), "_", pair.base.as_str());
    proof {
        reveal_strlit("_");
        assert(name@ =~= pair_name(pair.quote@, pair.base@));
    }
    to_upper(name.as_str())
}

/// EXMO, asked for a list of pairs.
pub struct Exmo<'a> {
    pairs: CurrencyPairList<'a>,
}

impl<'a> Exmo<'a> {
    /// The pairs, each with EXMO's symbol.
    pub closed spec fn pair_list(&self) -> CurrencyPairList<'a> {
        self.pairs
    }

    /// Lists the pairs under EXMO's symbols.
    pub fn new(currency_pairs: &'a Vec<CurrencyPair>) -> (x: Self)
        ensures
            x.pair_list().wf(),
            x.pair_list().pairs() == currency_pairs@,
            x.pair_list().symbols() == currency_pairs@.map_values(|p: CurrencyPair| exmo_symbol(p)),
            forall|i: int|
                0 <= i < currency_pairs@.len() ==> #[trigger] x.pair_list().symbols()[i] == str_upper(currency_pairs@[i].quote@ + seq!['_'] + currency_pairs@[i].base@),
    {
        let pairs = CurrencyPairList::new(currency_pairs, symbol_of);
        assert(pairs.symbols() =~= currency_pairs@.map_values(|p: CurrencyPair| exmo_symbol(p))) by {
            assert forall|i: int| 0 <= i < pairs.symbols().len() implies pairs.symbols()[i] == exmo_symbol(
                currency_pairs@[i],
            ) by {
                assert(call_ensures(symbol_of, (&currency_pairs@[i],), pairs.symbol_strings()[i]));
            }
        }
        Exmo { pairs }
    }

    /// The tickers of the listed pairs in a response, read in document order
    /// and keyed by symbol, under the pairs' names. A ticker is taken out of
    /// the response when it is found: a later pair with the same symbol gets
    /// a ticker with no price.
    pub fn tickers(&self, response: &Vec<SymbolTicker>) -> (t: TickerTable)
        ensures
            t@ == picked(
                self.pair_list(),
                reports_by_symbol(ticker_reports(response@)),
                true,
                self.pair_list().pairs().len(),
            ).0,
    {
        let mut by_symbol = table_of_reports(response);
        pick_listed(&self.pairs, &mut by_symbol, true)
    }

}

} // verus!
