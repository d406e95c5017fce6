//! Turning what an exchange reports, under its own symbols, into tickers
//! under the names of the pairs that the exchange is asked for.
use vstd::prelude::*;

use crate::exchanges::{clone_price, CurrencyPairList, Ticker, TickerView};
use crate::table::TickerTable;

verus! {

/// A ticker as an exchange reports it, under the exchange's symbol.
#[derive(Clone, Debug, PartialEq, Eq)]
pub struct SymbolTicker {
    pub symbol: String,
    pub ticker: Ticker,
}

impl View for SymbolTicker {
    type V = (Seq<char>, TickerView);

    open spec fn view(&self) -> (Seq<char>, TickerView) {
        (self.symbol@, self.ticker@)
    }
}

/// A last price as an exchange reports it, under the exchange's symbol.
#[derive(Clone, Debug, PartialEq, Eq)]
pub struct SymbolPrice {
    pub symbol: String,
    pub price: Option<String>,
}

impl View for SymbolPrice {
    type V = (Seq<char>, Option<Seq<char>>);

    open spec fn view(&self) -> (Seq<char>, Option<Seq<char>>) {
        (self.symbol@, self.price.deep_view())
    }
}

/// The reports as values, in order.
pub open spec fn ticker_reports(v: Seq<SymbolTicker>) -> Seq<(Seq<char>, TickerView)> {
    v.map_values(|e: SymbolTicker| e@)
}

/// The prices as values, in order.
pub open spec fn price_reports(v: Seq<SymbolPrice>) -> Seq<(Seq<char>, Option<Seq<char>>)> {
    v.map_values(|e: SymbolPrice| e@)
}

/// A ticker with no price.
pub open spec fn no_prices() -> TickerView {
    (None, None, None)
}

/// The tickers that a list of reports gives, read in order: each report whose
/// symbol names a listed pair puts its ticker under that pair's name, over
/// whatever an earlier report put there; the others are passed over.
pub open spec fn listed_tickers(list: CurrencyPairList, reports: Seq<(Seq<char>, TickerView)>) -> Map<
    Seq<char>,
    TickerView,
>
    decreases reports.len(),
{
    if reports.len() == 0 {
        Map::empty()
    } else {
        let before = listed_tickers(list, reports.drop_last());
        match list.lookup(reports.last().0) {
            Some(p) => before.insert(p.name(), reports.last().1),
            None => before,
        }
    }
}

/// The tickers after a list of last prices is read in order: a price whose
/// symbol names a listed pair that has a ticker becomes that ticker's last
/// price; the others change nothing.
pub open spec fn with_last_prices(
    list: CurrencyPairList,
    tickers: Map<Seq<char>, TickerView>,
    prices: Seq<(Seq<char>, Option<Seq<char>>)>,
) -> Map<Seq<char>, TickerView>
    decreases prices.len(),
{
    if prices.len() == 0 {
        tickers
    } else {
        let before = with_last_prices(list, tickers, prices.drop_last());
        match list.lookup(prices.last().0) {
            Some(p) => if before.contains_key(p.name()) {
                let t = before[p.name()];
                before.insert(p.name(), (t.0, t.1, prices.last().1))
            } else {
                before
            },
            None => before,
        }
    }
}

/// The map that a list of reports makes, read in order, keyed by symbol; a
/// later report under a symbol replaces an earlier one.
pub open spec fn reports_by_symbol(reports: Seq<(Seq<char>, TickerView)>) -> Map<Seq<char>, TickerView>
    decreases reports.len(),
{
    if reports.len() == 0 {
        Map::empty()
    } else {
        reports_by_symbol(reports.drop_last()).insert(reports.last().0, reports.last().1)
    }
}

/// The first `k` pairs of the list looked up in `response`, in the order of
/// the list: the tickers found, under the pairs' names, and what is left of
/// the response. Where `drain` holds, a ticker that is found is emptied in the
/// response, so that a later pair with the same symbol finds no price.
pub open spec fn picked(
    list: CurrencyPairList,
    response: Map<Seq<char>, TickerView>,
    drain: bool,
    k: nat,
) -> (Map<Seq<char>, TickerView>, Map<Seq<char>, TickerView>)
    decreases k,
{
    if k == 0 {
        (Map::empty(), response)
    } else {
        let (found, rest) = picked(list, response, drain, (k - 1) as nat);
        let symbol = list.symbols()[k - 1];
        if rest.contains_key(symbol) {
            (
                found.insert(list.pairs()[k - 1].name(), rest[symbol]),
                if drain {
                    rest.insert(symbol, no_prices())
                } else {
                    rest
                },
            )
        } else {
            (found, rest)
        }
    }
}

/// Only listed pairs get tickers: every name in the result is the name of a
/// listed pair. And every listed pair that a report names gets one.
pub proof fn lemma_listed_tickers_names(list: CurrencyPairList, reports: Seq<(Seq<char>, TickerView)>)
    requires
        list.wf(),
    ensures
        forall|k: Seq<char>|
            #[trigger] listed_tickers(list, reports).contains_key(k) ==> exists|i: int|
                0 <= i < list.pairs().len() && list.pairs()[i].name() == k,
        forall|r: int|
            0 <= r < reports.len() && list.lookup(#[trigger] reports[r].0) is Some ==> listed_tickers(
                list,
                reports,
            ).contains_key(list.lookup(reports[r].0).unwrap().name()),
    decreases reports.len(),
{
    if reports.len() > 0 {
        let before = reports.drop_last();
        lemma_listed_tickers_names(list, before);
        list.lemma_found_is_listed(reports.last().0);
        assert forall|k: Seq<char>| #[trigger] listed_tickers(list, reports).contains_key(k) implies exists|i: int|
            0 <= i < list.pairs().len() && list.pairs()[i].name() == k by {
            if !listed_tickers(list, before).contains_key(k) {
                let p = list.lookup(reports.last().0).unwrap();
                let i = choose|i: int|
                    0 <= i < list.pairs().len() && list.pairs()[i] == p && list.symbols()[i] == reports.last().0;
                assert(list.pairs()[i].name() == k);
            }
        }
        assert forall|r: int|
            0 <= r < reports.len() && list.lookup(#[trigger] reports[r].0) is Some implies listed_tickers(
                list,
                reports,
            ).contains_key(list.lookup(reports[r].0).unwrap().name()) by {
            if r < reports.len() - 1 {
                assert(before[r] == reports[r]);
            }
        }
    }
}

/// Every name in the tickers comes from some report whose symbol finds the
/// pair of that name.
pub proof fn lemma_listed_tickers_sources(list: CurrencyPairList, reports: Seq<(Seq<char>, TickerView)>)
    ensures
        forall|k: Seq<char>|
            #[trigger] listed_tickers(list, reports).contains_key(k) ==> exists|r: int|
                0 <= r < reports.len() && found_name(list, reports[r].0) == Some(k),
    decreases reports.len(),
{
    if reports.len() > 0 {
        let before = reports.drop_last();
        lemma_listed_tickers_sources(list, before);
        assert forall|k: Seq<char>| #[trigger] listed_tickers(list, reports).contains_key(k) implies exists|r: int|
            0 <= r < reports.len() && found_name(list, reports[r].0) == Some(k) by {
            if listed_tickers(list, before).contains_key(k) {
                let r = choose|r: int| 0 <= r < before.len() && found_name(list, before[r].0) == Some(k);
                assert(before[r] == reports[r]);
            } else {
                assert(found_name(list, reports[reports.len() - 1].0) == Some(k));
            }
        }
    }
}

/// Last prices change no ticker's ask or bid, and add or remove no ticker.
pub proof fn lemma_last_prices_keep_book(
    list: CurrencyPairList,
    tickers: Map<Seq<char>, TickerView>,
    prices: Seq<(Seq<char>, Option<Seq<char>>)>,
)
    ensures
        with_last_prices(list, tickers, prices).dom() == tickers.dom(),
        forall|k: Seq<char>|
            #[trigger] tickers.contains_key(k) ==> with_last_prices(list, tickers, prices)[k].0 == tickers[k].0
                && with_last_prices(list, tickers, prices)[k].1 == tickers[k].1,
    decreases prices.len(),
{
    if prices.len() > 0 {
        lemma_last_prices_keep_book(list, tickers, prices.drop_last());
        assert(with_last_prices(list, tickers, prices).dom() =~= tickers.dom());
    }
}

/// Looking pairs up in a response: only listed pairs get tickers, and each
/// listed pair whose symbol the response holds gets one. Where nothing is
/// drained the response is left as it was; either way it keeps its symbols.
pub proof fn lemma_picked_names(list: CurrencyPairList, response: Map<Seq<char>, TickerView>, drain: bool, k: nat)
    requires
        list.wf(),
        k <= list.pairs().len(),
    ensures
        forall|n: Seq<char>|
            #[trigger] picked(list, response, drain, k).0.contains_key(n) ==> exists|i: int|
                0 <= i < k && list.pairs()[i].name() == n,
        forall|i: int|
            0 <= i < k && response.contains_key(#[trigger] list.symbols()[i]) ==> picked(
                list,
                response,
                drain,
                k,
            ).0.contains_key(list.pairs()[i].name()),
        !drain ==> picked(list, response, drain, k).1 == response,
        picked(list, response, drain, k).1.dom() == response.dom(),
    decreases k,
{
    if k > 0 {
        lemma_picked_names(list, response, drain, (k - 1) as nat);
        let (found, rest) = picked(list, response, drain, (k - 1) as nat);
        assert(picked(list, response, drain, k).1.dom() =~= response.dom());
    }
}

/// A symbol that none of the first `k` pairs has is left as it was in the
/// response.
proof fn lemma_picked_rest_untouched(
    list: CurrencyPairList,
    response: Map<Seq<char>, TickerView>,
    drain: bool,
    k: nat,
    symbol: Seq<char>,
)
    requires
        k <= list.symbols().len(),
        forall|i: int| 0 <= i < k ==> list.symbols()[i] != symbol,
    ensures
        picked(list, response, drain, k).1.contains_key(symbol) == response.contains_key(symbol),
        response.contains_key(symbol) ==> picked(list, response, drain, k).1[symbol] == response[symbol],
    decreases k,
{
    if k > 0 {
        lemma_picked_rest_untouched(list, response, drain, (k - 1) as nat, symbol);
    }
}

/// The ticker each pair gets from a response: where no two of the pairs share
/// a name, and, if found tickers are drained, no two share a symbol, every
/// pair whose symbol the response holds gets exactly the response's ticker
/// under that symbol.
pub proof fn lemma_picked_values(list: CurrencyPairList, response: Map<Seq<char>, TickerView>, drain: bool, k: nat)
    requires
        list.wf(),
        k <= list.pairs().len(),
        forall|i: int, j: int| 0 <= i < j < k ==> list.pairs()[i].name() != list.pairs()[j].name(),
        drain ==> forall|i: int, j: int| 0 <= i < j < k ==> list.symbols()[i] != list.symbols()[j],
    ensures
        forall|i: int|
            0 <= i < k && response.contains_key(#[trigger] list.symbols()[i]) ==> picked(
                list,
                response,
                drain,
                k,
            ).0[list.pairs()[i].name()] == response[list.symbols()[i]],
    decreases k,
{
    if k > 0 {
        let km = (k - 1) as nat;
        lemma_picked_values(list, response, drain, km);
        lemma_picked_names(list, response, drain, km);
        let symbol = list.symbols()[km as int];
        if drain {
            lemma_picked_rest_untouched(list, response, drain, km, symbol);
        }
    }
}

/// Which report a pair's ticker comes from: the last report whose symbol
/// finds a pair with that name.
pub proof fn lemma_listed_tickers_values(list: CurrencyPairList, reports: Seq<(Seq<char>, TickerView)>)
    ensures
        forall|r: int|
            0 <= r < reports.len() && list.lookup(#[trigger] reports[r].0) is Some && (forall|q: int|
                r < q < reports.len() && list.lookup(reports[q].0) is Some ==> list.lookup(
                    reports[q].0,
                ).unwrap().name() != list.lookup(reports[r].0).unwrap().name()) ==> listed_tickers(
                list,
                reports,
            )[list.lookup(reports[r].0).unwrap().name()] == reports[r].1,
    decreases reports.len(),
{
    if reports.len() > 0 {
        let before = reports.drop_last();
        lemma_listed_tickers_values(list, before);
        assert forall|r: int|
            0 <= r < reports.len() && list.lookup(#[trigger] reports[r].0) is Some && (forall|q: int|
                r < q < reports.len() && list.lookup(reports[q].0) is Some ==> list.lookup(
                    reports[q].0,
                ).unwrap().name() != list.lookup(reports[r].0).unwrap().name()) implies listed_tickers(
            list,
            reports,
        )[list.lookup(reports[r].0).unwrap().name()] == reports[r].1 by {
            if r < reports.len() - 1 {
                assert(before[r] == reports[r]);
                assert forall|q: int|
                    r < q < before.len() && list.lookup(before[q].0) is Some implies list.lookup(
                    before[q].0,
                ).unwrap().name() != list.lookup(before[r].0).unwrap().name() by {
                    assert(before[q] == reports[q]);
                }
            }
        }
    }
}

/// A report is kept by `known_reports` when its symbol finds a listed pair.
pub open spec fn known_reports(list: CurrencyPairList, reports: Seq<(Seq<char>, TickerView)>) -> Seq<
    (Seq<char>, TickerView),
> {
    reports.filter(|e: (Seq<char>, TickerView)| list.lookup(e.0) is Some)
}

/// A price is kept by `effective_prices` when its symbol finds a listed pair
/// that has a ticker in `tickers`.
pub open spec fn effective_prices(
    list: CurrencyPairList,
    tickers: Map<Seq<char>, TickerView>,
    prices: Seq<(Seq<char>, Option<Seq<char>>)>,
) -> Seq<(Seq<char>, Option<Seq<char>>)> {
    prices.filter(
        |e: (Seq<char>, Option<Seq<char>>)|
            list.lookup(e.0) is Some && tickers.contains_key(list.lookup(e.0).unwrap().name()),
    )
}

/// Reports under symbols that no listed pair has change nothing: the tickers
/// are those of the known reports alone.
pub proof fn lemma_unknown_reports_ignored(list: CurrencyPairList, reports: Seq<(Seq<char>, TickerView)>)
    ensures
        listed_tickers(list, reports) == listed_tickers(list, known_reports(list, reports)),
    decreases reports.len(),
{
    if reports.len() > 0 {
        let before = reports.drop_last();
        lemma_unknown_reports_ignored(list, before);
        let kb = known_reports(list, before);
        reveal_with_fuel(Seq::<(Seq<char>, TickerView)>::filter, 1);
        if list.lookup(reports.last().0) is Some {
            assert(known_reports(list, reports) == kb.push(reports.last()));
            assert(kb.push(reports.last()).drop_last() =~= kb);
        } else {
            assert(known_reports(list, reports) == kb);
        }
    }
}

/// Prices change nothing unless their symbol finds a listed pair that has a
/// ticker: the result is that of the effective prices alone.
pub proof fn lemma_ineffective_prices_ignored(
    list: CurrencyPairList,
    tickers: Map<Seq<char>, TickerView>,
    prices: Seq<(Seq<char>, Option<Seq<char>>)>,
)
    ensures
        with_last_prices(list, tickers, prices) == with_last_prices(
            list,
            tickers,
            effective_prices(list, tickers, prices),
        ),
    decreases prices.len(),
{
    if prices.len() > 0 {
        let before = prices.drop_last();
        lemma_ineffective_prices_ignored(list, tickers, before);
        lemma_last_prices_keep_book(list, tickers, before);
        let eb = effective_prices(list, tickers, before);
        reveal_with_fuel(Seq::<(Seq<char>, Option<Seq<char>>)>::filter, 1);
        lemma_last_prices_keep_book(list, tickers, eb);
        let last = prices.last();
        if list.lookup(last.0) is Some && tickers.contains_key(list.lookup(last.0).unwrap().name()) {
            assert(effective_prices(list, tickers, prices) == eb.push(last));
            assert(eb.push(last).drop_last() =~= eb);
        } else {
            assert(effective_prices(list, tickers, prices) == eb);
        }
    }
}

/// The name of the listed pair a symbol finds, if it finds one.
pub open spec fn found_name(list: CurrencyPairList, symbol: Seq<char>) -> Option<Seq<char>> {
    match list.lookup(symbol) {
        Some(p) => Some(p.name()),
        None => None,
    }
}

/// What last prices do to the tickers: a pair that has a ticker and is found
/// by some price report takes as its last price the price of the last such
/// report, keeping its ask and bid, wherever it stands in the list; every
/// other ticker is left as it was.
pub proof fn lemma_last_prices_values(
    list: CurrencyPairList,
    tickers: Map<Seq<char>, TickerView>,
    prices: Seq<(Seq<char>, Option<Seq<char>>)>,
)
    ensures
        forall|r: int|
            0 <= r < prices.len() && #[trigger] found_name(list, prices[r].0) is Some && tickers.contains_key(
                found_name(list, prices[r].0).unwrap(),
            ) && (forall|q: int| r < q < prices.len() ==> found_name(list, prices[q].0) != found_name(list, prices[r].0))
                ==> with_last_prices(list, tickers, prices)[found_name(list, prices[r].0).unwrap()] == (
                tickers[found_name(list, prices[r].0).unwrap()].0,
                tickers[found_name(list, prices[r].0).unwrap()].1,
                prices[r].1,
            ),
        forall|k: Seq<char>|
            #[trigger] tickers.contains_key(k) && (forall|q: int|
                0 <= q < prices.len() ==> found_name(list, prices[q].0) != Some(k)) ==> with_last_prices(
                list,
                tickers,
                prices,
            )[k] == tickers[k],
    decreases prices.len(),
{
    if prices.len() > 0 {
        let before = prices.drop_last();
        lemma_last_prices_values(list, tickers, before);
        lemma_last_prices_keep_book(list, tickers, before);
        assert forall|r: int|
            0 <= r < prices.len() && #[trigger] found_name(list, prices[r].0) is Some && tickers.contains_key(
                found_name(list, prices[r].0).unwrap(),
            ) && (forall|q: int| r < q < prices.len() ==> found_name(list, prices[q].0) != found_name(list, prices[r].0))
                implies with_last_prices(list, tickers, prices)[found_name(list, prices[r].0).unwrap()] == (
            tickers[found_name(list, prices[r].0).unwrap()].0,
            tickers[found_name(list, prices[r].0).unwrap()].1,
            prices[r].1,
        ) by {
            let n = found_name(list, prices[r].0).unwrap();
            if r < prices.len() - 1 {
                assert(before[r] == prices[r]);
                assert forall|q: int| r < q < before.len() implies found_name(list, before[q].0) != found_name(
                    list,
                    before[r].0,
                ) by {
                    assert(before[q] == prices[q]);
                }
                assert(found_name(list, prices.last().0) != Some(n));
            }
        }
        assert forall|k: Seq<char>|
            #[trigger] tickers.contains_key(k) && (forall|q: int|
                0 <= q < prices.len() ==> found_name(list, prices[q].0) != Some(k)) implies with_last_prices(
            list,
            tickers,
            prices,
        )[k] == tickers[k] by {
            assert forall|q: int| 0 <= q < before.len() implies found_name(list, before[q].0) != Some(k) by {
                assert(before[q] == prices[q]);
            }
            assert(found_name(list, prices[prices.len() - 1].0) != Some(k));
        }
    }
}

/// What the map keyed by symbol holds: every report's symbol, and nothing
/// else, each with the ticker of the last report under it, however many
/// reports there are.
pub proof fn lemma_reports_by_symbol(reports: Seq<(Seq<char>, TickerView)>)
    ensures
        forall|r: int| 0 <= r < reports.len() ==> reports_by_symbol(reports).contains_key(#[trigger] reports[r].0),
        forall|k: Seq<char>|
            #[trigger] reports_by_symbol(reports).contains_key(k) ==> exists|r: int|
                0 <= r < reports.len() && reports[r].0 == k,
        forall|r: int|
            0 <= r < reports.len() && (forall|q: int| r < q < reports.len() ==> reports[q].0 != reports[r].0)
                ==> reports_by_symbol(reports)[#[trigger] reports[r].0] == reports[r].1,
    decreases reports.len(),
{
    if reports.len() > 0 {
        let before = reports.drop_last();
        lemma_reports_by_symbol(before);
        assert forall|r: int| 0 <= r < reports.len() implies reports_by_symbol(reports).contains_key(
            #[trigger] reports[r].0,
        ) by {
            if r < reports.len() - 1 {
                assert(before[r] == reports[r]);
            }
        }
        assert forall|k: Seq<char>| #[trigger] reports_by_symbol(reports).contains_key(k) implies exists|r: int|
            0 <= r < reports.len() && reports[r].0 == k by {
            if k != reports.last().0 {
                assert(reports_by_symbol(before).contains_key(k));
                let r = choose|r: int| 0 <= r < before.len() && before[r].0 == k;
                assert(reports[r] == before[r]);
            } else {
                assert(reports[reports.len() - 1].0 == k);
            }
        }
        assert forall|r: int|
            0 <= r < reports.len() && (forall|q: int| r < q < reports.len() ==> reports[q].0 != reports[r].0)
                implies reports_by_symbol(reports)[#[trigger] reports[r].0] == reports[r].1 by {
            if r < reports.len() - 1 {
                assert(before[r] == reports[r]);
                assert forall|q: int| r < q < before.len() implies before[q].0 != before[r].0 by {
                    assert(before[q] == reports[q]);
                }
                assert(reports[reports.len() - 1].0 != reports[r].0);
            }
        }
    }
}

/// What a keyed answer gives the listed pairs: where no two pairs share a
/// name, and, if found tickers are taken out, no two share a symbol, each
/// pair whose symbol some report has gets the ticker of the last report
/// under that symbol, and a pair whose symbol no report has gets none.
pub proof fn lemma_keyed_answer_values(list: CurrencyPairList, reports: Seq<(Seq<char>, TickerView)>, drain: bool)
    requires
        list.wf(),
        forall|i: int, j: int|
            0 <= i < j < list.pairs().len() ==> list.pairs()[i].name() != list.pairs()[j].name(),
        drain ==> forall|i: int, j: int|
            0 <= i < j < list.pairs().len() ==> list.symbols()[i] != list.symbols()[j],
    ensures
        forall|i: int, r: int|
            0 <= i < list.pairs().len() && 0 <= r < reports.len() && #[trigger] reports[r].0
                == #[trigger] list.symbols()[i] && (forall|q: int|
                r < q < reports.len() ==> reports[q].0 != reports[r].0) ==> picked(
                list,
                reports_by_symbol(reports),
                drain,
                list.pairs().len(),
            ).0[list.pairs()[i].name()] == reports[r].1,
        forall|i: int|
            0 <= i < list.pairs().len() && (forall|r: int| 0 <= r < reports.len() ==> reports[r].0 != list.symbols()[i])
                ==> !picked(list, reports_by_symbol(reports), drain, list.pairs().len()).0.contains_key(
                #[trigger] list.pairs()[i].name(),
            ),
{
    let n = list.pairs().len();
    let response = reports_by_symbol(reports);
    lemma_reports_by_symbol(reports);
    lemma_picked_values(list, response, drain, n);
    lemma_picked_names(list, response, drain, n);
    assert forall|i: int|
        0 <= i < n && (forall|r: int| 0 <= r < reports.len() ==> reports[r].0 != list.symbols()[i]) implies !picked(
        list,
        response,
        drain,
        n,
    ).0.contains_key(#[trigger] list.pairs()[i].name()) by {
        if picked(list, response, drain, n).0.contains_key(list.pairs()[i].name()) {
            let j = choose|j: int| 0 <= j < n && list.pairs()[j].name() == list.pairs()[i].name();
            assert(j == i);
            lemma_picked_found_has_symbol(list, response, drain, n, i);
            assert(response.contains_key(list.symbols()[i]));
            let r = choose|r: int| 0 <= r < reports.len() && reports[r].0 == list.symbols()[i];
        }
    }
}

/// A pair gets a ticker only where the response holds its symbol, when no
/// two pairs share a name.
proof fn lemma_picked_found_has_symbol(
    list: CurrencyPairList,
    response: Map<Seq<char>, TickerView>,
    drain: bool,
    k: nat,
    i: int,
)
    requires
        list.wf(),
        k <= list.pairs().len(),
        0 <= i < list.pairs().len(),
        forall|a: int, b: int| 0 <= a < b < list.pairs().len() ==> list.pairs()[a].name() != list.pairs()[b].name(),
        picked(list, response, drain, k).0.contains_key(list.pairs()[i].name()),
    ensures
        response.contains_key(list.symbols()[i]),
    decreases k,
{
    if k > 0 {
        let km = (k - 1) as nat;
        lemma_picked_names(list, response, drain, km);
        let (found, rest) = picked(list, response, drain, km);
        if found.contains_key(list.pairs()[i].name()) {
            lemma_picked_found_has_symbol(list, response, drain, km, i);
        } else {
            assert(list.pairs()[km as int].name() == list.pairs()[i].name());
            assert(km as int == i);
            assert(rest.contains_key(list.symbols()[i]));
        }
    } else {
        assert(false);
    }
}

/// The tickers of the reports whose symbol names a listed pair, under the
/// pair's name.
pub fn collect_listed(list: &CurrencyPairList, reports: &Vec<SymbolTicker>) -> (t: TickerTable)
    ensures
        t@ == listed_tickers(*list, ticker_reports(reports@)),
        forall|k: Seq<char>|
            #[trigger] t@.contains_key(k) ==> exists|r: int|
                0 <= r < reports@.len() && found_name(*list, reports@[r].symbol@) == Some(k),
        forall|r: int|
            0 <= r < reports@.len() && #[trigger] found_name(*list, reports@[r].symbol@) is Some && (forall|q: int|
                r < q < reports@.len() ==> found_name(*list, reports@[q].symbol@) != found_name(
                    *list,
                    reports@[r].symbol@,
                )) ==> t@.contains_key(found_name(*list, reports@[r].symbol@).unwrap()) && t@[found_name(
                *list,
                reports@[r].symbol@,
            ).unwrap()] == reports@[r].ticker@,
{
    let mut t = TickerTable::new();
    let ghost rv = ticker_reports(reports@);
    let n = reports.len();
    for k in 0..n
        invariant
            n == reports@.len(),
            rv == ticker_reports(reports@),
            t@ == listed_tickers(*list, rv.take(k as int)),
    {
        assert(rv.take(k + 1).drop_last() =~= rv.take(k as int));
        let item = &reports[k];
        match list.find(&item.symbol) {
            Some(pair) => {
                t.insert(pair.to_string(), item.ticker.duplicate());
            },
            None => {},
        }
    }
    assert(rv.take(n as int) =~= rv);
    proof {
        lemma_listed_tickers_values(*list, rv);
        lemma_listed_tickers_names(*list, rv);
        lemma_listed_tickers_sources(*list, rv);
        assert forall|k: Seq<char>| #[trigger] t@.contains_key(k) implies exists|r: int|
            0 <= r < reports@.len() && found_name(*list, reports@[r].symbol@) == Some(k) by {
            let r = choose|r: int| 0 <= r < rv.len() && found_name(*list, rv[r].0) == Some(k);
            assert(rv[r] == reports@[r]@);
        }
        assert forall|r: int|
            0 <= r < reports@.len() && #[trigger] found_name(*list, reports@[r].symbol@) is Some && (forall|q: int|
                r < q < reports@.len() ==> found_name(*list, reports@[q].symbol@) != found_name(
                    *list,
                    reports@[r].symbol@,
                )) implies t@.contains_key(found_name(*list, reports@[r].symbol@).unwrap()) && t@[found_name(
            *list,
            reports@[r].symbol@,
        ).unwrap()] == reports@[r].ticker@ by {
            assert(rv[r] == reports@[r]@);
            assert(list.lookup(rv[r].0) is Some);
            assert forall|q: int|
                r < q < rv.len() && list.lookup(rv[q].0) is Some implies list.lookup(rv[q].0).unwrap().name()
                != list.lookup(rv[r].0).unwrap().name() by {
                assert(rv[q] == reports@[q]@);
                assert(found_name(*list, reports@[q].symbol@) != found_name(*list, reports@[r].symbol@));
            }
        }
    }
    t
}

/// Sets the last price of each listed pair that has a ticker to the price
/// reported under its symbol.
pub fn apply_last_prices(list: &CurrencyPairList, t: &mut TickerTable, prices: &Vec<SymbolPrice>)
    ensures
        final(t)@ == with_last_prices(*list, old(t)@, price_reports(prices@)),
        final(t)@.dom() == old(t)@.dom(),
        forall|r: int|
            0 <= r < prices@.len() && #[trigger] found_name(*list, prices@[r].symbol@) is Some && old(
                t,
            )@.contains_key(found_name(*list, prices@[r].symbol@).unwrap()) && (forall|q: int|
                r < q < prices@.len() ==> found_name(*list, prices@[q].symbol@) != found_name(
                    *list,
                    prices@[r].symbol@,
                )) ==> final(t)@[found_name(*list, prices@[r].symbol@).unwrap()] == (
                old(t)@[found_name(*list, prices@[r].symbol@).unwrap()].0,
                old(t)@[found_name(*list, prices@[r].symbol@).unwrap()].1,
                prices@[r].price.deep_view(),
            ),
{
    let ghost pv = price_reports(prices@);
    let ghost start = t@;
    let n = prices.len();
    for k in 0..n
        invariant
            n == prices@.len(),
            pv == price_reports(prices@),
            t@ == with_last_prices(*list, start, pv.take(k as int)),
    {
        assert(pv.take(k + 1).drop_last() =~= pv.take(k as int));
        let item = &prices[k];
        match list.find(&item.symbol) {
            Some(pair) => {
                let name = pair.to_string();
                match t.get(&name) {
                    Some(found) => {
                        let updated = Ticker { ask: found.ask, bid: found.bid, last: clone_price(&item.price) };
                        t.insert(name, updated);
                    },
                    None => {},
                }
            },
            None => {},
        }
    }
    assert(pv.take(n as int) =~= pv);
    proof {
        lemma_last_prices_keep_book(*list, start, pv);
        lemma_last_prices_values(*list, start, pv);
        assert forall|r: int|
            0 <= r < prices@.len() && #[trigger] found_name(*list, prices@[r].symbol@) is Some && start.contains_key(
                found_name(*list, prices@[r].symbol@).unwrap(),
            ) && (forall|q: int|
                r < q < prices@.len() ==> found_name(*list, prices@[q].symbol@) != found_name(
                    *list,
                    prices@[r].symbol@,
                )) implies t@[found_name(*list, prices@[r].symbol@).unwrap()] == (
            start[found_name(*list, prices@[r].symbol@).unwrap()].0,
            start[found_name(*list, prices@[r].symbol@).unwrap()].1,
            prices@[r].price.deep_view(),
        ) by {
            assert(pv[r] == prices@[r]@);
            assert forall|q: int| r < q < pv.len() implies found_name(*list, pv[q].0) != found_name(
                *list,
                pv[r].0,
            ) by {
                assert(pv[q] == prices@[q]@);
            }
            assert(found_name(*list, pv[r].0) is Some);
        }
    }
}

/// The reports keyed by symbol.
pub fn table_of_reports(reports: &Vec<SymbolTicker>) -> (t: TickerTable)
    ensures
        t@ == reports_by_symbol(ticker_reports(reports@)),
        forall|r: int| 0 <= r < reports@.len() ==> t@.contains_key(#[trigger] reports@[r].symbol@),
        forall|k: Seq<char>|
            #[trigger] t@.contains_key(k) ==> exists|r: int| 0 <= r < reports@.len() && reports@[r].symbol@ == k,
        forall|r: int|
            0 <= r < reports@.len() && (forall|q: int|
                r < q < reports@.len() ==> reports@[q].symbol@ != reports@[r].symbol@) ==> t@[
                #[trigger] reports@[r].symbol@] == reports@[r].ticker@,
{
    let mut t = TickerTable::new();
    let ghost rv = ticker_reports(reports@);
    let n = reports.len();
    for k in 0..n
        invariant
            n == reports@.len(),
            rv == ticker_reports(reports@),
            t@ == reports_by_symbol(rv.take(k as int)),
    {
        assert(rv.take(k + 1).drop_last() =~= rv.take(k as int));
        let item = &reports[k];
        t.insert(item.symbol.clone(), item.ticker.duplicate());
    }
    assert(rv.take(n as int) =~= rv);
    proof {
        lemma_reports_by_symbol(rv);
        assert forall|r: int| 0 <= r < reports@.len() implies t@.contains_key(#[trigger] reports@[r].symbol@) by {
            assert(rv[r] == reports@[r]@);
            assert(reports_by_symbol(rv).contains_key(rv[r].0));
        }
        assert forall|k: Seq<char>| #[trigger] t@.contains_key(k) implies exists|r: int|
            0 <= r < reports@.len() && reports@[r].symbol@ == k by {
            let r = choose|r: int| 0 <= r < rv.len() && rv[r].0 == k;
            assert(rv[r] == reports@[r]@);
        }
        assert forall|r: int|
            0 <= r < reports@.len() && (forall|q: int|
                r < q < reports@.len() ==> reports@[q].symbol@ != reports@[r].symbol@) implies t@[
            #[trigger] reports@[r].symbol@] == reports@[r].ticker@ by {
            assert(rv[r] == reports@[r]@);
            assert forall|q: int| r < q < rv.len() implies rv[q].0 != rv[r].0 by {
                assert(rv[q] == reports@[q]@);
            }
        }
    }
    t
}

/// Looks each listed pair up in `response` by its symbol, in the order of the
/// list, and gathers the tickers found under the pairs' names; where `drain`
/// holds, each ticker found is emptied in the response.
pub fn pick_listed(list: &CurrencyPairList, response: &mut TickerTable, drain: bool) -> (found: TickerTable)
    ensures
        (found@, final(response)@) == picked(*list, old(response)@, drain, list.pairs().len()),
        forall|n: Seq<char>|
            #[trigger] found@.contains_key(n) ==> exists|i: int| 0 <= i < list.pairs().len() && list.pairs()[i].name() == n,
        forall|i: int|
            0 <= i < list.pairs().len() && old(response)@.contains_key(#[trigger] list.symbols()[i])
                ==> found@.contains_key(list.pairs()[i].name()),
        (forall|i: int, j: int|
            0 <= i < j < list.pairs().len() ==> list.pairs()[i].name() != list.pairs()[j].name()) && (drain
            ==> forall|i: int, j: int| 0 <= i < j < list.pairs().len() ==> list.symbols()[i] != list.symbols()[j])
            ==> forall|i: int|
            0 <= i < list.pairs().len() && old(response)@.contains_key(#[trigger] list.symbols()[i])
                ==> found@[list.pairs()[i].name()] == old(response)@[list.symbols()[i]],
        !drain ==> final(response)@ == old(response)@,
{
    let mut found = TickerTable::new();
    let ghost start = response@;
    let n = list.len();
    for k in 0..n
        invariant
            n == list.pairs().len(),
            n == list.symbols().len(),
            (found@, response@) == picked(*list, start, drain, k as nat),
    {
        let symbol = list.symbol_at(k);
        match response.get(symbol) {
            Some(ticker) => {
                let pair = list.pair_at(k);
                found.insert(pair.to_string(), ticker);
                if drain {
                    response.insert(symbol.clone(), Ticker::empty());
                }
            },
            None => {},
        }
    }
    proof {
        lemma_picked_names(*list, start, drain, n as nat);
        if (forall|i: int, j: int|
            0 <= i < j < list.pairs().len() ==> list.pairs()[i].name() != list.pairs()[j].name()) && (drain
            ==> forall|i: int, j: int| 0 <= i < j < list.pairs().len() ==> list.symbols()[i] != list.symbols()[j]) {
            lemma_picked_values(*list, start, drain, n as nat);
        }
    }
    found
}

} // verus!
