//! gate.io: one request answered with an object keyed by symbol.
use vstd::prelude::*;

use crate::exchanges::listing::{pick_listed, picked, reports_by_symbol, table_of_reports, ticker_reports, SymbolTicker};
use crate::exchanges::{pair_name, CurrencyPair, CurrencyPairList};
use crate::table::TickerTable;
use crate::text::{join_with, str_lower, to_lower};

verus! {

/// gate.io's symbol of a pair: `"{quote}_{base}"` in lower case.
pub open spec fn gate_io_symbol(pair: CurrencyPair) -> Seq<char> {
    str_lower(pair_name(pair.quote@, pair.base@))
}

/// gate.io spells a pair's symbol exactly so, for every pair.
pub proof fn lemma_symbol_spelling(pair: CurrencyPair)
    ensures
        gate_io_symbol(pair) == str_lower(pair.quote@ + seq!['_'] + pair.base@),
{
    assert(gate_io_symbol(pair) =~= str_lower(pair.quote@ + seq!['_'] + pair.base@));
}

/// gate.io's symbol of a pair.
pub fn symbol_of(pair: &CurrencyPair) -> (s: String)
    ensures
        s@ == gate_io_symbol(*pair),
        s@ == str_lower(pair.quote@ + seq!['_'] + pair.base@),
{
    let name = join_with(pair.quote.as_str(), "_", pair.base.as_str());
    proof {
        reveal_strlit("_");
        assert(name@ =~= pair_name(pair.quote@, pair.base@));
    }
    to_lower(name.as_str())
}

/// gate.io, asked for a list of pairs.
pub struct GateIo<'a> {
    pairs: CurrencyPairList<'a>,
}

impl<'a> GateIo<'a> {
    /// The pairs, each with gate.io's symbol.
    pub closed spec fn pair_list(&self) -> CurrencyPairList<'a> {
        self.pairs
    }

    /// Lists the pairs under gate.io's symbols.
    pub fn new(currency_pairs: &'a Vec<CurrencyPair>) -> (x: Self)
        ensures
            x.pair_list().wf(),
            x.pair_list().pairs() == currency_pairs@,
            x.pair_list().symbols() == currency_pairs@.map_values(|p: CurrencyPair| gate_io_symbol(p)),
            forall|i: int|
                0 <= i < currency_pairs@.len() ==> #[trigger] x.pair_list().symbols()[i] == str_lower(currency_pairs@[i].quote@ + seq!['_'] + currency_pairs@[i].base@),
    {
        let pairs = CurrencyPairList::new(currency_pairs, symbol_of);
        assert(pairs.symbols() =~= currency_pairs@.map_values(|p: CurrencyPair| gate_io_symbol(p))) by {
            assert forall|i: int| 0 <= i < pairs.symbols().len() implies pairs.symbols()[i] == gate_io_symbol(
                currency_pairs@[i],
            ) by {
                assert(call_ensures(symbol_of, (&currency_pairs@[i],), pairs.symbol_strings()[i]));
            }
        }
        GateIo { pairs }
    }

    /// The tickers of the listed pairs in a response, read in document order
    /// and keyed by symbol, under the pairs' names. A ticker is taken out of
    /// the response when it is found: a later pair with the same symbol gets
    /// a ticker with no price.
    pub fn tickers(&self, response: &Vec<SymbolTicker>) -> (t: TickerTable)
        ensures
            t@ == picked(
                self.pair_list(),
                reports_by_symbol(ticker_reports(response@)),
                true,
                self.pair_list().pairs().len(),
            ).0,
    {
        let mut by_symbol = table_of_reports(response);
        pick_listed(&self.pairs, &mut by_symbol, true)
    }

}

} // verus!
