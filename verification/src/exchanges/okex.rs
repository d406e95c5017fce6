//! OKEx: one request for all instruments, each reported under its instrument id.
use vstd::prelude::*;

use crate::exchanges::listing::{collect_listed, listed_tickers, ticker_reports, SymbolTicker};
use crate::exchanges::{CurrencyPair, CurrencyPairList};
use crate::table::TickerTable;
use crate::text::{join_with, str_upper, to_upper};

verus! {

/// OKEx's symbol of a pair: `"{quote}-{base}"` in upper case.
pub open spec fn okex_symbol(pair: CurrencyPair) -> Seq<char> {
    str_upper(pair.quote@ + seq!['-'] + pair.base@)
}

/// OKEx spells a pair's symbol exactly so, for every pair.
pub proof fn lemma_symbol_spelling(pair: CurrencyPair)
    ensures
        okex_symbol(pair) == str_upper(pair.quote@ + seq!['-'] + pair.base@),
{
    assert(okex_symbol(pair) =~= str_upper(pair.quote@ + seq!['-'] + pair.base@));
}

/// OKEx's symbol of a pair.
pub fn symbol_of(pair: &CurrencyPair) -> (s: String)
    ensures
        s@ == okex_symbol(*pair),
        s@ == str_upper(pair.quote@ + seq!['-'] + pair.base@),
{
    let name = join_with(pair.quote.as_str(), "-", pair.base.as_str());
    proof {
        reveal_strlit("-");
        assert(name@ =~= pair.quote@ + seq!['-'] + pair.base@);
    }
    to_upper(name.as_str())
}

/// OKEx, asked for a list of pairs.
pub struct Okex<'a> {
    pairs: CurrencyPairList<'a>,
}

impl<'a> Okex<'a> {
    /// The pairs, each with OKEx's symbol.
    pub closed spec fn pair_list(&self) -> CurrencyPairList<'a> {
        self.pairs
    }

    /// Lists the pairs under OKEx's symbols.
    pub fn new(currency_pairs: &'a Vec<CurrencyPair>) -> (x: Self)
        ensures
            x.pair_list().wf(),
            x.pair_list().pairs() == currency_pairs@,
            x.pair_list().symbols() == currency_pairs@.map_values(|p: CurrencyPair| okex_symbol(p)),
            forall|i: int|
                0 <= i < currency_pairs@.len() ==> #[trigger] x.pair_list().symbols()[i] == str_upper(currency_pairs@[i].quote@ + seq!['-'] + currency_pairs@[i].base@),
    {
        let pairs = CurrencyPairList::new(currency_pairs, symbol_of);
        assert(pairs.symbols() =~= currency_pairs@.map_values(|p: CurrencyPair| okex_symbol(p))) by {
            assert forall|i: int| 0 <= i < pairs.symbols().len() implies pairs.symbols()[i] == okex_symbol(
                currency_pairs@[i],
            ) by {
                assert(call_ensures(symbol_of, (&currency_pairs@[i],), pairs.symbol_strings()[i]));
            }
        }
        Okex { pairs }
    }

    /// The tickers of the reports in a response whose symbol names a listed
    /// pair, under the pair's name; a later report for a pair replaces an
    /// earlier one.
    pub fn tickers(&self, response: &Vec<SymbolTicker>) -> (t: TickerTable)
        ensures
            t@ == listed_tickers(self.pair_list(), ticker_reports(response@)),
    {
        collect_listed(&self.pairs, response)
    }

}

} // verus!
