//! Binance: two requests, one for the best bid and ask of every market and one
//! for the last price of every market, each reported under its symbol.
use vstd::prelude::*;

use crate::exchanges::listing::{
    apply_last_prices, collect_listed, effective_prices, known_reports, lemma_ineffective_prices_ignored,
    lemma_unknown_reports_ignored, listed_tickers, price_reports, ticker_reports, with_last_prices, SymbolPrice,
    SymbolTicker,
};
use crate::exchanges::{clone_price, CurrencyPair, CurrencyPairList, Ticker, TickerView};
use crate::table::TickerTable;
use crate::text::{concatenated, str_upper, to_upper};

verus! {

/// Binance's symbol of a pair: `"{quote}{base}"` in upper case.
pub open spec fn binance_symbol(pair: CurrencyPair) -> Seq<char> {
    str_upper(pair.quote@ + pair.base@)
}

/// Binance spells a pair's symbol exactly so, for every pair.
pub proof fn lemma_symbol_spelling(pair: CurrencyPair)
    ensures
        binance_symbol(pair) == str_upper(pair.quote@ + pair.base@),
{
    assert(binance_symbol(pair) =~= str_upper(pair.quote@ + pair.base@));
}

/// Binance's symbol of a pair.
pub fn symbol_of(pair: &CurrencyPair) -> (s: String)
    ensures
        s@ == binance_symbol(*pair),
        s@ == str_upper(pair.quote@ + pair.base@),
{
    let name = concatenated(pair.quote.as_str(), pair.base.as_str());
    to_upper(name.as_str())
}

/// The best bid and ask of a market, under its symbol.
#[derive(Clone, Debug, PartialEq, Eq)]
pub struct BookTicker {
    pub symbol: String,
    pub bid_price: Option<String>,
    pub ask_price: Option<String>,
}

/// The book tickers as reports: a book ticker gives an ask and a bid and no
/// last price.
pub open spec fn book_reports(orders: Seq<BookTicker>) -> Seq<(Seq<char>, TickerView)> {
    orders.map_values(
        |o: BookTicker| (o.symbol@, (o.ask_price.deep_view(), o.bid_price.deep_view(), None::<Seq<char>>)),
    )
}

/// The tickers Binance's two answers give: the book tickers of listed pairs,
/// then the last prices.
pub open spec fn binance_tickers(
    list: CurrencyPairList,
    orders: Seq<BookTicker>,
    prices: Seq<SymbolPrice>,
) -> Map<Seq<char>, TickerView> {
    with_last_prices(list, listed_tickers(list, book_reports(orders)), price_reports(prices))
}

/// Symbols no listed pair has change nothing, and neither does a price for a
/// pair that no book ticker names: two pairs of answers that agree once such
/// book tickers and prices are left out give the same tickers.
pub proof fn lemma_unknown_symbols_change_nothing(
    list: CurrencyPairList,
    orders: Seq<BookTicker>,
    prices: Seq<SymbolPrice>,
    more_orders: Seq<BookTicker>,
    more_prices: Seq<SymbolPrice>,
)
    requires
        known_reports(list, book_reports(more_orders)) == known_reports(list, book_reports(orders)),
        effective_prices(list, listed_tickers(list, book_reports(orders)), price_reports(more_prices))
            == effective_prices(list, listed_tickers(list, book_reports(orders)), price_reports(prices)),
    ensures
        binance_tickers(list, more_orders, more_prices) == binance_tickers(list, orders, prices),
{
    lemma_unknown_reports_ignored(list, book_reports(orders));
    lemma_unknown_reports_ignored(list, book_reports(more_orders));
    let book = listed_tickers(list, book_reports(orders));
    lemma_ineffective_prices_ignored(list, book, price_reports(prices));
    lemma_ineffective_prices_ignored(list, book, price_reports(more_prices));
}

/// Binance, asked for a list of pairs.
pub struct Binance<'a> {
    pairs: CurrencyPairList<'a>,
}

impl<'a> Binance<'a> {
    /// The pairs, each with Binance's symbol.
    pub closed spec fn pair_list(&self) -> CurrencyPairList<'a> {
        self.pairs
    }

    /// Lists the pairs under Binance's symbols.
    pub fn new(currency_pairs: &'a Vec<CurrencyPair>) -> (x: Self)
        ensures
            x.pair_list().wf(),
            x.pair_list().pairs() == currency_pairs@,
            x.pair_list().symbols() == currency_pairs@.map_values(|p: CurrencyPair| binance_symbol(p)),
            forall|i: int|
                0 <= i < currency_pairs@.len() ==> #[trigger] x.pair_list().symbols()[i] == str_upper(currency_pairs@[i].quote@ + currency_pairs@[i].base@),
    {
        let pairs = CurrencyPairList::new(currency_pairs, symbol_of);
        assert(pairs.symbols() =~= currency_pairs@.map_values(|p: CurrencyPair| binance_symbol(p))) by {
            assert forall|i: int| 0 <= i < pairs.symbols().len() implies pairs.symbols()[i] == binance_symbol(
                currency_pairs@[i],
            ) by {
                assert(call_ensures(symbol_of, (&currency_pairs@[i],), pairs.symbol_strings()[i]));
            }
        }
        Binance { pairs }
    }

    /// The tickers of the listed pairs: first the bid and ask of every book
    /// ticker whose symbol names a listed pair, under the pair's name, then
    /// the last price of every price whose pair has such a ticker.
    pub fn tickers(&self, orders: &Vec<BookTicker>, prices: &Vec<SymbolPrice>) -> (t: TickerTable)
        ensures
            t@ == binance_tickers(self.pair_list(), orders@, prices@),
    {
        let mut reports: Vec<SymbolTicker> = Vec::new();
        let n = orders.len();
        for k in 0..n
            invariant
                n == orders@.len(),
                reports@.len() == k,
                forall|i: int| 0 <= i < k ==> #[trigger] reports@[i]@ == book_reports(orders@)[i],
        {
            let order = &orders[k];
            reports.push(
                SymbolTicker {
                    symbol: order.symbol.clone(),
                    ticker: Ticker { ask: clone_price(&order.ask_price), bid: clone_price(&order.bid_price), last: None },
                },
            );
        }
        assert(ticker_reports(reports@) =~= book_reports(orders@));
        let mut t = collect_listed(&self.pairs, &reports);
        apply_last_prices(&self.pairs, &mut t, prices);
        t
    }
}

} // verus!
