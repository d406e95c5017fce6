//! Bitfinex: one request answered with a list of rows, one per market; a row
//! is a list of components, the symbol first and numbers after it.
use vstd::prelude::*;

use crate::exchanges::{clone_price, CurrencyPair, CurrencyPairList, Ticker, TickerView};
use crate::table::TickerTable;
use crate::text::{concatenated, str_upper, to_upper};

verus! {

/// Position of the symbol in a row.
pub const SYMBOL_COMPONENT: usize = 0;

/// Position of the best bid in a row.
pub const BID_COMPONENT: usize = 1;

/// Position of the best ask in a row.
pub const ASK_COMPONENT: usize = 3;

/// Position of the last price in a row.
pub const LAST_PRICE_COMPONENT: usize = 7;

/// How many components a ticker row has.
pub const COMPONENT_COUNT: usize = 11;

/// Bitfinex's symbol of a pair: `"t{QUOTE}{BASE}"`, quote and base each in
/// upper case.
pub open spec fn bitfinex_symbol(pair: CurrencyPair) -> Seq<char> {
    seq!['t'] + str_upper(pair.quote@) + str_upper(pair.base@)
}

/// Bitfinex spells a pair's symbol exactly so, for every pair.
pub proof fn lemma_symbol_spelling(pair: CurrencyPair)
    ensures
        bitfinex_symbol(pair) == seq!['t'] + str_upper(pair.quote@) + str_upper(pair.base@),
{
    assert(bitfinex_symbol(pair) =~= seq!['t'] + str_upper(pair.quote@) + str_upper(pair.base@));
}

/// Bitfinex's symbol of a pair.
pub fn symbol_of(pair: &CurrencyPair) -> (s: String)
    ensures
        s@ == bitfinex_symbol(*pair),
        s@ == seq!['t'] + str_upper(pair.quote@) + str_upper(pair.base@),
{
    let quote = to_upper(pair.quote.as_str());
    let base = to_upper(pair.base.as_str());
    let head = concatenated("t", quote.as_str());
    let s = concatenated(head.as_str(), base.as_str());
    proof {
        reveal_strlit("t");
        assert(s@ =~= bitfinex_symbol(*pair));
    }
    s
}

/// One component of a row: a symbol, or a number that may be missing (the
/// number as the decimal text it was reported as).
#[derive(Clone, Debug, PartialEq, Eq)]
pub enum ResponseItemComponent {
    Symbol(String),
    Number(Option<String>),
}

/// The symbol at the start of a row, if the row starts with a symbol.
pub open spec fn row_symbol(row: Seq<ResponseItemComponent>) -> Option<Seq<char>> {
    match row[SYMBOL_COMPONENT as int] {
        ResponseItemComponent::Symbol(s) => Some(s@),
        ResponseItemComponent::Number(_) => None,
    }
}

/// The number at a position of a row, if a number stands there.
pub open spec fn row_number(row: Seq<ResponseItemComponent>, component: int) -> Option<Option<Seq<char>>> {
    match row[component] {
        ResponseItemComponent::Number(x) => Some(x.deep_view()),
        ResponseItemComponent::Symbol(_) => None,
    }
}

/// The ticker of a row: its ask, bid and last price, if a number stands at
/// each of their positions.
pub open spec fn row_ticker(row: Seq<ResponseItemComponent>) -> Option<TickerView> {
    match (
        row_number(row, ASK_COMPONENT as int),
        row_number(row, BID_COMPONENT as int),
        row_number(row, LAST_PRICE_COMPONENT as int),
    ) {
        (Some(ask), Some(bid), Some(last)) => Some((ask, bid, last)),
        _ => None,
    }
}

/// The rows as sequences of components.
pub open spec fn rows_view(rows: Seq<Vec<ResponseItemComponent>>) -> Seq<Seq<ResponseItemComponent>> {
    rows.map_values(|r: Vec<ResponseItemComponent>| r@)
}

/// The tickers that the rows give, read in order: a row of the right length
/// that starts with the symbol of a listed pair and has numbers for its ask,
/// bid and last price puts that ticker under the pair's name; other rows are
/// passed over.
pub open spec fn row_tickers(list: CurrencyPairList, rows: Seq<Seq<ResponseItemComponent>>) -> Map<
    Seq<char>,
    TickerView,
>
    decreases rows.len(),
{
    if rows.len() == 0 {
        Map::empty()
    } else {
        let before = row_tickers(list, rows.drop_last());
        let row = rows.last();
        if row.len() != COMPONENT_COUNT {
            before
        } else {
            match row_symbol(row) {
                Some(symbol) => match list.lookup(symbol) {
                    Some(pair) => match row_ticker(row) {
                        Some(t) => before.insert(pair.name(), t),
                        None => before,
                    },
                    None => before,
                },
                None => before,
            }
        }
    }
}

/// Only listed pairs get tickers from the rows, and a well-formed row for a
/// listed pair always gives one.
pub proof fn lemma_row_tickers_names(list: CurrencyPairList, rows: Seq<Seq<ResponseItemComponent>>)
    requires
        list.wf(),
    ensures
        forall|k: Seq<char>|
            #[trigger] row_tickers(list, rows).contains_key(k) ==> exists|i: int|
                0 <= i < list.pairs().len() && list.pairs()[i].name() == k,
        forall|r: int|
            0 <= r < rows.len() && (#[trigger] rows[r]).len() == COMPONENT_COUNT && row_symbol(rows[r]) is Some
                && list.lookup(row_symbol(rows[r]).unwrap()) is Some && row_ticker(rows[r]) is Some
                ==> row_tickers(list, rows).contains_key(list.lookup(row_symbol(rows[r]).unwrap()).unwrap().name()),
    decreases rows.len(),
{
    if rows.len() > 0 {
        let before = rows.drop_last();
        lemma_row_tickers_names(list, before);
        let row = rows.last();
        if row.len() == COMPONENT_COUNT && row_symbol(row) is Some {
            list.lemma_found_is_listed(row_symbol(row).unwrap());
        }
        assert forall|k: Seq<char>| #[trigger] row_tickers(list, rows).contains_key(k) implies exists|i: int|
            0 <= i < list.pairs().len() && list.pairs()[i].name() == k by {
            if !row_tickers(list, before).contains_key(k) {
                let symbol = row_symbol(row).unwrap();
                let p = list.lookup(symbol).unwrap();
                let i = choose|i: int|
                    0 <= i < list.pairs().len() && list.pairs()[i] == p && list.symbols()[i] == symbol;
                assert(list.pairs()[i].name() == k);
            }
        }
        assert forall|r: int|
            0 <= r < rows.len() && (#[trigger] rows[r]).len() == COMPONENT_COUNT && row_symbol(rows[r]) is Some
                && list.lookup(row_symbol(rows[r]).unwrap()) is Some && row_ticker(rows[r]) is Some
                implies row_tickers(list, rows).contains_key(
            list.lookup(row_symbol(rows[r]).unwrap()).unwrap().name(),
        ) by {
            if r < rows.len() - 1 {
                assert(before[r] == rows[r]);
            }
        }
    }
}

/// The name of the listed pair a row gives a ticker to, read from the row's
/// components directly: a row of 11 components that starts with the symbol
/// of a listed pair and has numbers at positions 1 (bid), 3 (ask) and 7
/// (last price).
pub open spec fn row_target(list: CurrencyPairList, row: Seq<ResponseItemComponent>) -> Option<Seq<char>> {
    if row.len() == 11 && row[1] is Number && row[3] is Number && row[7] is Number {
        match row[0] {
            ResponseItemComponent::Symbol(s) => match list.lookup(s@) {
                Some(p) => Some(p.name()),
                None => None,
            },
            ResponseItemComponent::Number(_) => None,
        }
    } else {
        None
    }
}

/// The ticker a pair gets from the rows is that of its own row: the last row
/// that gives it a ticker supplies its ask (position 3), bid (position 1) and
/// last price (position 7).
pub proof fn lemma_row_tickers_values(list: CurrencyPairList, rows: Seq<Seq<ResponseItemComponent>>)
    ensures
        forall|r: int|
            0 <= r < rows.len() && #[trigger] row_target(list, rows[r]) is Some && (forall|q: int|
                r < q < rows.len() ==> row_target(list, rows[q]) != row_target(list, rows[r])) ==> {
                let t = row_tickers(list, rows)[row_target(list, rows[r]).unwrap()];
                &&& row_tickers(list, rows).contains_key(row_target(list, rows[r]).unwrap())
                &&& rows[r][3] matches ResponseItemComponent::Number(a) && t.0 == a.deep_view()
                &&& rows[r][1] matches ResponseItemComponent::Number(b) && t.1 == b.deep_view()
                &&& rows[r][7] matches ResponseItemComponent::Number(l) && t.2 == l.deep_view()
            },
    decreases rows.len(),
{
    if rows.len() > 0 {
        let before = rows.drop_last();
        lemma_row_tickers_values(list, before);
        assert forall|r: int|
            0 <= r < rows.len() && #[trigger] row_target(list, rows[r]) is Some && (forall|q: int|
                r < q < rows.len() ==> row_target(list, rows[q]) != row_target(list, rows[r])) implies {
            let t = row_tickers(list, rows)[row_target(list, rows[r]).unwrap()];
            &&& row_tickers(list, rows).contains_key(row_target(list, rows[r]).unwrap())
            &&& rows[r][3] matches ResponseItemComponent::Number(a) && t.0 == a.deep_view()
            &&& rows[r][1] matches ResponseItemComponent::Number(b) && t.1 == b.deep_view()
            &&& rows[r][7] matches ResponseItemComponent::Number(l) && t.2 == l.deep_view()
        } by {
            if r < rows.len() - 1 {
                assert(before[r] == rows[r]);
                assert forall|q: int| r < q < before.len() implies row_target(list, before[q]) != row_target(
                    list,
                    before[r],
                ) by {
                    assert(before[q] == rows[q]);
                }
                assert(row_target(list, rows[rows.len() - 1]) != row_target(list, rows[r]));
            }
        }
    }
}

/// The symbol at the start of a row; an error where a number stands there.
pub fn try_get_symbol(value: &Vec<ResponseItemComponent>) -> (r: Result<&String, ()>)
    requires
        value@.len() > SYMBOL_COMPONENT,
    ensures
        r is Ok <==> row_symbol(value@) is Some,
        r matches Ok(s) ==> row_symbol(value@) == Some(s@),
{
    match &value[SYMBOL_COMPONENT] {
        ResponseItemComponent::Symbol(x) => Ok(x),
        _ => Err(()),
    }
}

/// The number at position `component` of a row; an error where a symbol
/// stands there.
pub fn try_get_number(value: &Vec<ResponseItemComponent>, component: usize) -> (r: Result<Option<String>, ()>)
    requires
        component < value@.len(),
    ensures
        r is Ok <==> row_number(value@, component as int) is Some,
        r matches Ok(x) ==> row_number(value@, component as int) == Some(x.deep_view()),
{
    match &value[component] {
        ResponseItemComponent::Number(x) => Ok(clone_price(x)),
        _ => Err(()),
    }
}

impl Ticker {
    /// The ticker of a row; an error where a symbol stands in place of its
    /// ask, bid or last price.
    pub fn try_from_components(value: &Vec<ResponseItemComponent>) -> (r: Result<Ticker, ()>)
        requires
            value@.len() > LAST_PRICE_COMPONENT,
        ensures
            r is Ok <==> row_ticker(value@) is Some,
            r matches Ok(t) ==> row_ticker(value@) == Some(t@),
    {
        let ask = try_get_number(value, ASK_COMPONENT)?;
        let bid = try_get_number(value, BID_COMPONENT)?;
        let last = try_get_number(value, LAST_PRICE_COMPONENT)?;
        Ok(Ticker { ask, bid, last })
    }
}

/// Bitfinex, asked for a list of pairs.
pub struct Bitfinex<'a> {
    pairs: CurrencyPairList<'a>,
}

impl<'a> Bitfinex<'a> {
    /// The pairs, each with Bitfinex's symbol.
    pub closed spec fn pair_list(&self) -> CurrencyPairList<'a> {
        self.pairs
    }

    /// Lists the pairs under Bitfinex's symbols.
    pub fn new(currency_pairs: &'a Vec<CurrencyPair>) -> (x: Self)
        ensures
            x.pair_list().wf(),
            x.pair_list().pairs() == currency_pairs@,
            x.pair_list().symbols() == currency_pairs@.map_values(|p: CurrencyPair| bitfinex_symbol(p)),
            forall|i: int|
                0 <= i < currency_pairs@.len() ==> #[trigger] x.pair_list().symbols()[i] == seq!['t'] + str_upper(currency_pairs@[i].quote@) + str_upper(currency_pairs@[i].base@),
    {
        let pairs = CurrencyPairList::new(currency_pairs, symbol_of);
        assert(pairs.symbols() =~= currency_pairs@.map_values(|p: CurrencyPair| bitfinex_symbol(p))) by {
            assert forall|i: int| 0 <= i < pairs.symbols().len() implies pairs.symbols()[i] == bitfinex_symbol(
                currency_pairs@[i],
            ) by {
                assert(call_ensures(symbol_of, (&currency_pairs@[i],), pairs.symbol_strings()[i]));
            }
        }
        Bitfinex { pairs }
    }

    /// The tickers of the rows of a response that name a listed pair, under
    /// the pair's name; rows of another length, rows that do not start with a
    /// symbol and rows without numbers for ask, bid and last price are passed
    /// over.
    pub fn tickers(&self, response: &Vec<Vec<ResponseItemComponent>>) -> (t: TickerTable)
        ensures
            t@ == row_tickers(self.pair_list(), rows_view(response@)),
            forall|r: int|
            0 <= r < response@.len() && #[trigger] row_target(self.pair_list(), response@[r]@) is Some && (forall|q: int|
                r < q < response@.len() ==> row_target(self.pair_list(), response@[q]@) != row_target(
                    self.pair_list(),
                    response@[r]@,
                )) ==> {
                let v = t@[row_target(self.pair_list(), response@[r]@).unwrap()];
                &&& t@.contains_key(row_target(self.pair_list(), response@[r]@).unwrap())
                &&& response@[r]@[3] matches ResponseItemComponent::Number(a) && v.0 == a.deep_view()
                &&& response@[r]@[1] matches ResponseItemComponent::Number(b) && v.1 == b.deep_view()
                &&& response@[r]@[7] matches ResponseItemComponent::Number(l) && v.2 == l.deep_view()
            },
    {
        let mut t = TickerTable::new();
        let ghost rows = rows_view(response@);
        let n = response.len();
        for k in 0..n
            invariant
                n == response@.len(),
                rows == rows_view(response@),
                t@ == row_tickers(self.pair_list(), rows.take(k as int)),
        {
            assert(rows.take(k + 1).drop_last() =~= rows.take(k as int));
            let data = &response[k];
            if data.len() == COMPONENT_COUNT {
                match try_get_symbol(data) {
                    Ok(symbol) => match self.pairs.find(symbol) {
                        Some(pair) => match Ticker::try_from_components(data) {
                            Ok(ticker) => {
                                t.insert(pair.to_string(), ticker);
                            },
                            Err(_) => {},
                        },
                        None => {},
                    },
                    Err(_) => {},
                }
            }
        }
        assert(rows.take(n as int) =~= rows);
        proof {
            lemma_row_tickers_values(self.pair_list(), rows);
            assert forall|r: int|
                0 <= r < response@.len() && #[trigger] row_target(self.pair_list(), response@[r]@) is Some && (forall|q: int|
                    r < q < response@.len() ==> row_target(self.pair_list(), response@[q]@) != row_target(
                        self.pair_list(),
                        response@[r]@,
                    )) implies {
                let v = t@[row_target(self.pair_list(), response@[r]@).unwrap()];
                &&& t@.contains_key(row_target(self.pair_list(), response@[r]@).unwrap())
                &&& response@[r]@[3] matches ResponseItemComponent::Number(a) && v.0 == a.deep_view()
                &&& response@[r]@[1] matches ResponseItemComponent::Number(b) && v.1 == b.deep_view()
                &&& response@[r]@[7] matches ResponseItemComponent::Number(l) && v.2 == l.deep_view()
            } by {
                assert(rows[r] == response@[r]@);
                assert forall|q: int| r < q < rows.len() implies row_target(self.pair_list(), rows[q]) != row_target(
                    self.pair_list(),
                    rows[r],
                ) by {
                    assert(rows[q] == response@[q]@);
                }
            }
        }
        t
    }
}

} // verus!
