//! Currency pairs, the symbols each exchange gives them, the tickers
//! published for them, and one module per exchange.
use vstd::prelude::*;

use crate::text::join_with;

pub mod listing;
pub mod binance;
pub mod bitfinex;
pub mod bittrex;
pub mod exmo;
pub mod gate_io;
pub mod hit_btc;
pub mod live_coin;
pub mod okex;
pub mod p2pb2b;
pub mod yobit;

pub use binance::Binance;
pub use bitfinex::Bitfinex;
pub use bittrex::Bittrex;
pub use exmo::Exmo;
pub use gate_io::GateIo;
pub use hit_btc::HitBtc;
pub use live_coin::LiveCoin;
pub use okex::Okex;
pub use p2pb2b::P2pb2b;
pub use yobit::Yobit;

verus! {

/// A market: the asset that is priced (`quote`) against the asset it is
/// priced in (`base`).
#[derive(Clone, Debug, PartialEq, Eq)]
pub struct CurrencyPair {
    pub base: String,
    pub quote: String,
}

/// The name under which a pair is published: the quote, an underscore, the base.
pub open spec fn pair_name(quote: Seq<char>, base: Seq<char>) -> Seq<char> {
    quote + seq!['_'] + base
}

impl CurrencyPair {
    pub open spec fn name(&self) -> Seq<char> {
        pair_name(self.quote@, self.base@)
    }

    /// The published name of the pair, `"{quote}_{base}"`.
    pub fn to_string(&self) -> (s: String)
        ensures
            s@ == self.name(),
            s@ == self.quote@ + seq!['_'] + self.base@,
    {
        let s = join_with(self.quote.as_str(), "_", self.base.as_str());
        proof {
            reveal_strlit("_");
        }
        s
    }
}

/// The last known prices of one market; each may be missing.
#[derive(Clone, Debug, PartialEq, Eq)]
pub struct Ticker {
    pub ask: Option<String>,
    pub bid: Option<String>,
    pub last: Option<String>,
}

/// A ticker as values: ask, bid and last price.
pub type TickerView = (Option<Seq<char>>, Option<Seq<char>>, Option<Seq<char>>);

impl View for Ticker {
    type V = TickerView;

    open spec fn view(&self) -> TickerView {
        (self.ask.deep_view(), self.bid.deep_view(), self.last.deep_view())
    }
}

pub fn clone_price(p: &Option<String>) -> (r: Option<String>)
    ensures
        r.deep_view() == p.deep_view(),
{
    match p {
        Some(s) => Some(s.clone()),
        None => None,
    }
}

impl Ticker {
    /// A ticker with no price at all.
    pub fn empty() -> (t: Ticker)
        ensures
            t@ == (None::<Seq<char>>, None::<Seq<char>>, None::<Seq<char>>),
    {
        Ticker { ask: None, bid: None, last: None }
    }

    /// A copy of the ticker.
    pub fn duplicate(&self) -> (t: Ticker)
        ensures
            t@ == self@,
    {
        Ticker { ask: clone_price(&self.ask), bid: clone_price(&self.bid), last: clone_price(&self.last) }
    }
}

/// Settings of one exchange.
#[derive(Clone, Debug, PartialEq, Eq)]
pub struct ExchangeSettings {
    pub public_key: Option<String>,
}

/// Settings of each exchange that has any.
#[derive(Clone, Debug, PartialEq, Eq)]
pub struct Exchanges {
    pub hit_btc: Option<ExchangeSettings>,
    pub yobit: Option<ExchangeSettings>,
    pub live_coin: Option<ExchangeSettings>,
    pub exmo: Option<ExchangeSettings>,
    pub binance: Option<ExchangeSettings>,
    pub polonex: Option<ExchangeSettings>,
    pub gate_io: Option<ExchangeSettings>,
}

/// `i` is the first position at which `symbols` holds `symbol`.
pub open spec fn is_first_match(symbols: Seq<Seq<char>>, symbol: Seq<char>, i: int) -> bool {
    &&& 0 <= i < symbols.len()
    &&& symbols[i] == symbol
    &&& forall|j: int| 0 <= j < i ==> symbols[j] != symbol
}

proof fn lemma_first_match_exists(symbols: Seq<Seq<char>>, symbol: Seq<char>, j: int)
    requires
        0 <= j < symbols.len(),
        symbols[j] == symbol,
    ensures
        exists|k: int| 0 <= k <= j && is_first_match(symbols, symbol, k),
    decreases j,
{
    if !is_first_match(symbols, symbol, j) {
        let k = choose|k: int| 0 <= k < j && symbols[k] == symbol;
        lemma_first_match_exists(symbols, symbol, k);
    }
}

/// The currency pairs an exchange trades, each with the symbol the exchange
/// gives it, in the order of the settings.
pub struct CurrencyPairList<'a>(Vec<(&'a CurrencyPair, String)>);

impl<'a> CurrencyPairList<'a> {
    /// The pairs, in order.
    pub closed spec fn pairs(&self) -> Seq<CurrencyPair> {
        self.0@.map_values(|e: (&'a CurrencyPair, String)| *e.0)
    }

    /// The symbol strings, in order.
    pub closed spec fn symbol_strings(&self) -> Seq<String> {
        self.0@.map_values(|e: (&'a CurrencyPair, String)| e.1)
    }

    /// The symbols, in order.
    pub open spec fn symbols(&self) -> Seq<Seq<char>> {
        self.symbol_strings().map_values(|s: String| s@)
    }

    pub open spec fn wf(&self) -> bool {
        self.pairs().len() == self.symbol_strings().len()
    }

    /// The pair found under `symbol`: the first one whose symbol it is.
    pub open spec fn lookup(&self, symbol: Seq<char>) -> Option<CurrencyPair> {
        if exists|i: int| is_first_match(self.symbols(), symbol, i) {
            Some(self.pairs()[choose|i: int| is_first_match(self.symbols(), symbol, i)])
        } else {
            None
        }
    }

    /// How many pairs the list holds.
    pub fn len(&self) -> (n: usize)
        ensures
            n == self.pairs().len(),
            n == self.symbols().len(),
    {
        self.0.len()
    }

    /// The pair at position `k`.
    pub fn pair_at(&self, k: usize) -> (p: &'a CurrencyPair)
        requires
            k < self.pairs().len(),
        ensures
            *p == self.pairs()[k as int],
    {
        self.0[k].0
    }

    /// The symbol at position `k`.
    pub fn symbol_at(&self, k: usize) -> (s: &String)
        requires
            k < self.pairs().len(),
        ensures
            s@ == self.symbols()[k as int],
    {
        &self.0[k].1
    }

    /// A symbol in the list finds a pair: the first one listed under it, and
    /// so the pair itself where no two pairs share a symbol.
    pub proof fn lemma_listed_symbol_found(&self, i: int)
        requires
            self.wf(),
            0 <= i < self.symbols().len(),
        ensures
            self.lookup(self.symbols()[i]) is Some,
            exists|j: int|
                0 <= j <= i && self.symbols()[j] == self.symbols()[i] && self.lookup(self.symbols()[i])
                    == Some(self.pairs()[j]),
            (forall|a: int, b: int|
                0 <= a < b < self.symbols().len() ==> self.symbols()[a] != self.symbols()[b])
                ==> self.lookup(self.symbols()[i]) == Some(self.pairs()[i]),
    {
        let syms = self.symbols();
        let s = syms[i];
        if !is_first_match(syms, s, i) {
            let j = choose|j: int| 0 <= j < i && syms[j] == s;
            lemma_first_match_exists(syms, s, j);
        }
        assert(exists|j: int| is_first_match(syms, s, j));
        let c = choose|j: int| is_first_match(syms, s, j);
        assert(0 <= c <= i);
    }

    /// A pair found under a symbol is listed under that symbol.
    pub proof fn lemma_found_is_listed(&self, symbol: Seq<char>)
        requires
            self.wf(),
        ensures
            self.lookup(symbol) matches Some(p) ==> exists|i: int|
                0 <= i < self.pairs().len() && self.pairs()[i] == p && self.symbols()[i] == symbol,
    {
        if self.lookup(symbol) is Some {
            let c = choose|j: int| is_first_match(self.symbols(), symbol, j);
            assert(self.pairs()[c] == self.lookup(symbol).unwrap());
        }
    }

    /// Pairs each currency pair with the symbol `symbol_predicate` gives it.
    pub fn new<F>(currency_pairs: &'a Vec<CurrencyPair>, symbol_predicate: F) -> (list: Self) where
        F: Fn(&CurrencyPair) -> String,
        requires
            forall|i: int| 0 <= i < currency_pairs@.len() ==> call_requires(
                symbol_predicate,
                (&currency_pairs@[i],),
            ),
        ensures
            list.wf(),
            list.pairs() == currency_pairs@,
            forall|i: int|
                0 <= i < currency_pairs@.len() ==> call_ensures(
                    symbol_predicate,
                    (&currency_pairs@[i],),
                    #[trigger] list.symbol_strings()[i],
                ),
    {
        let mut items: Vec<(&'a CurrencyPair, String)> = Vec::new();
        let n = currency_pairs.len();
        for k in 0..n
            invariant
                n == currency_pairs@.len(),
                items@.len() == k,
                forall|i: int| 0 <= i < currency_pairs@.len() ==> call_requires(
                    symbol_predicate,
                    (&currency_pairs@[i],),
                ),
                forall|i: int| 0 <= i < k ==> *items@[i].0 == currency_pairs@[i],
                forall|i: int|
                    0 <= i < k ==> call_ensures(
                        symbol_predicate,
                        (&currency_pairs@[i],),
                        #[trigger] items@[i].1,
                    ),
        {
            let pair = &currency_pairs[k];
            let symbol = symbol_predicate(pair);
            items.push((pair, symbol));
        }
        let list = CurrencyPairList(items);
        assert(list.pairs() =~= currency_pairs@);
        list
    }

    /// The pair whose symbol is `symbol`; where several have it, the first.
    pub fn find(&self, symbol: &String) -> (r: Option<&'a CurrencyPair>)
        ensures
            r matches Some(p) ==> self.lookup(symbol@) == Some(*p),
            r is None ==> self.lookup(symbol@) is None,
            r matches Some(p) ==> exists|i: int|
                0 <= i < self.pairs().len() && self.pairs()[i] == *p && self.symbols()[i] == symbol@ && forall|j: int|
                    0 <= j < i ==> self.symbols()[j] != symbol@,
            r is None ==> forall|i: int| 0 <= i < self.symbols().len() ==> self.symbols()[i] != symbol@,
    {
        let n = self.0.len();
        let ghost syms = self.symbols();
        for k in 0..n
            invariant
                n == self.0@.len(),
                syms == self.symbols(),
                forall|j: int| 0 <= j < k ==> syms[j] != symbol@,
        {
            if self.0[k].1 == *symbol {
                proof {
                    assert(is_first_match(syms, symbol@, k as int));
                    let c = choose|i: int| is_first_match(syms, symbol@, i);
                    assert(c == k);
                }
                return Some(self.0[k].0);
            }
        }
        proof {
            assert forall|i: int| !is_first_match(syms, symbol@, i) by {
                if 0 <= i < syms.len() {
                    assert(syms[i] != symbol@);
                }
            }
        }
        None
    }
}

} // verus!
