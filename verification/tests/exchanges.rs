use ticker_aggregator::exchanges::binance::{self, BookTicker};
use ticker_aggregator::exchanges::bitfinex::{self, ResponseItemComponent};
use ticker_aggregator::exchanges::listing::{SymbolPrice, SymbolTicker};
use ticker_aggregator::exchanges::{
    bittrex, exmo, gate_io, hit_btc, live_coin, okex, p2pb2b, yobit, Binance, Bitfinex, Bittrex, CurrencyPair, Exmo,
    GateIo, HitBtc, LiveCoin, Okex, P2pb2b, Ticker, Yobit,
};
use ticker_aggregator::table::TickerTable;

fn pair(quote: &str, base: &str) -> CurrencyPair {
    CurrencyPair { base: base.to_string(), quote: quote.to_string() }
}

fn price(s: &str) -> Option<String> {
    Some(s.to_string())
}

fn ticker(ask: &str, bid: &str, last: &str) -> Ticker {
    Ticker { ask: price(ask), bid: price(bid), last: price(last) }
}

fn report(symbol: &str, t: Ticker) -> SymbolTicker {
    SymbolTicker { symbol: symbol.to_string(), ticker: t }
}

fn sorted(t: &TickerTable) -> Vec<(String, Ticker)> {
    let mut e = t.entries();
    e.sort_by(|x, y| x.0.cmp(&y.0));
    e
}

#[test]
fn symbols_of_each_exchange() {
    let p = pair("btc", "usdt");
    assert_eq!(binance::symbol_of(&p), "BTCUSDT");
    assert_eq!(bitfinex::symbol_of(&p), "tBTCUSDT");
    assert_eq!(bittrex::symbol_of(&p), "usdt-btc");
    assert_eq!(exmo::symbol_of(&p), "BTC_USDT");
    assert_eq!(gate_io::symbol_of(&pair("BTC", "USDT")), "btc_usdt");
    assert_eq!(hit_btc::symbol_of(&p), "BTCUSDT");
    assert_eq!(live_coin::symbol_of(&p), "BTC/USDT");
    assert_eq!(okex::symbol_of(&p), "BTC-USDT");
    assert_eq!(p2pb2b::symbol_of(&p), "BTC_USDT");
    assert_eq!(yobit::symbol_of(&pair("BTC", "USDT")), "btc_usdt");
}

#[test]
fn list_responses_keep_only_listed_pairs() {
    let pairs = vec![pair("btc", "usd"), pair("eth", "usd")];
    let response = vec![
        report("BTCUSD", ticker("2", "1", "1.5")),
        report("XRPUSD", ticker("9", "9", "9")),
        report("ETHUSD", ticker("4", "3", "3.5")),
        report("BTCUSD", ticker("2.2", "1.1", "1.6")),
    ];
    let t = HitBtc::new(&pairs).tickers(&response);
    assert_eq!(
        sorted(&t),
        vec![("btc_usd".to_string(), ticker("2.2", "1.1", "1.6")), ("eth_usd".to_string(), ticker("4", "3", "3.5"))]
    );
}

#[test]
fn other_list_exchanges() {
    let pairs = vec![pair("btc", "usd")];
    let t = Okex::new(&pairs).tickers(&vec![report("BTC-USD", ticker("1", "2", "3"))]);
    assert_eq!(sorted(&t), vec![("btc_usd".to_string(), ticker("1", "2", "3"))]);
    let t = LiveCoin::new(&pairs).tickers(&vec![report("BTC/USD", ticker("1", "2", "3"))]);
    assert_eq!(sorted(&t), vec![("btc_usd".to_string(), ticker("1", "2", "3"))]);
    let t = Bittrex::new(&pairs).tickers(&vec![report("usd-btc", ticker("1", "2", "3")), report("BTC-USD", Ticker::empty())]);
    assert_eq!(sorted(&t), vec![("btc_usd".to_string(), ticker("1", "2", "3"))]);
    let t = Bittrex::new(&pairs).tickers(&vec![]);
    assert!(t.entries().is_empty());
}

#[test]
fn binance_joins_book_and_last_prices() {
    let pairs = vec![pair("btc", "usdt"), pair("eth", "usdt"), pair("ltc", "usdt")];
    let orders = vec![
        BookTicker { symbol: "BTCUSDT".to_string(), bid_price: price("1"), ask_price: price("2") },
        BookTicker { symbol: "ETHUSDT".to_string(), bid_price: price("3"), ask_price: None },
        BookTicker { symbol: "BNBUSDT".to_string(), bid_price: price("5"), ask_price: price("6") },
    ];
    let prices = vec![
        SymbolPrice { symbol: "BTCUSDT".to_string(), price: price("1.5") },
        SymbolPrice { symbol: "LTCUSDT".to_string(), price: price("7") },
        SymbolPrice { symbol: "BNBUSDT".to_string(), price: price("5.5") },
    ];
    let t = Binance::new(&pairs).tickers(&orders, &prices);
    assert_eq!(
        sorted(&t),
        vec![
            ("btc_usdt".to_string(), Ticker { ask: price("2"), bid: price("1"), last: price("1.5") }),
            ("eth_usdt".to_string(), Ticker { ask: None, bid: price("3"), last: None }),
        ]
    );
}

fn row(symbol: &str, numbers: &[Option<&str>]) -> Vec<ResponseItemComponent> {
    let mut r = vec![ResponseItemComponent::Symbol(symbol.to_string())];
    for n in numbers {
        r.push(ResponseItemComponent::Number(n.map(|s| s.to_string())));
    }
    r
}

#[test]
fn bitfinex_rows() {
    let pairs = vec![pair("btc", "usd"), pair("eth", "usd")];
    let good = row("tBTCUSD", &[Some("1"), Some("10"), Some("2"), Some("20"), Some("0.1"), Some("0.01"), Some("3"), Some("100"), Some("4"), Some("0.5")]);
    let short = row("tETHUSD", &[Some("1"), Some("10"), Some("2")]);
    let mut symbol_in_ask = row("tETHUSD", &[Some("1"), Some("10"), Some("2"), Some("20"), Some("0.1"), Some("0.01"), None, Some("100"), Some("4"), Some("0.5")]);
    symbol_in_ask[3] = ResponseItemComponent::Symbol("x".to_string());
    let mut number_first = good.clone();
    number_first[0] = ResponseItemComponent::Number(None);
    let t = Bitfinex::new(&pairs).tickers(&vec![good.clone(), short, symbol_in_ask, number_first]);
    assert_eq!(sorted(&t), vec![("btc_usd".to_string(), Ticker { ask: price("2"), bid: price("1"), last: price("3") })]);
    let missing = row("tETHUSD", &[None, Some("10"), None, Some("20"), Some("0.1"), Some("0.01"), None, Some("100"), Some("4"), Some("0.5")]);
    let t = Bitfinex::new(&pairs).tickers(&vec![missing]);
    assert_eq!(sorted(&t), vec![("eth_usd".to_string(), Ticker::empty())]);
}

#[test]
fn bitfinex_components() {
    let r = row("tBTCUSD", &[Some("1"), None, Some("2"), Some("3"), None, None, Some("7")]);
    assert_eq!(bitfinex::try_get_symbol(&r), Ok(&"tBTCUSD".to_string()));
    assert_eq!(bitfinex::try_get_number(&r, 1), Ok(Some("1".to_string())));
    assert_eq!(bitfinex::try_get_number(&r, 2), Ok(None));
    assert_eq!(bitfinex::try_get_number(&r, 0), Err(()));
    let mut n = r.clone();
    n[0] = ResponseItemComponent::Number(None);
    assert_eq!(bitfinex::try_get_symbol(&n), Err(()));
    assert_eq!(
        Ticker::try_from_components(&r),
        Ok(Ticker { ask: Some("2".to_string()), bid: Some("1".to_string()), last: Some("7".to_string()) })
    );
    let mut bad = r.clone();
    bad[7] = ResponseItemComponent::Symbol("x".to_string());
    assert_eq!(Ticker::try_from_components(&bad), Err(()));
}

#[test]
fn keyed_responses_take_each_ticker_once() {
    // two listed pairs with the same symbol: the second finds the ticker taken
    let pairs = vec![pair("btc", "usd"), pair("eth", "usd"), pair("BTC", "USD")];
    let response = vec![
        report("ETH_USD", ticker("1", "1", "1")),
        report("BTC_USD", ticker("8", "8", "8")),
        report("BTC_USD", ticker("2", "1", "1.5")),
    ];
    let t = Exmo::new(&pairs).tickers(&response);
    assert_eq!(
        sorted(&t),
        vec![
            ("BTC_USD".to_string(), Ticker::empty()),
            ("btc_usd".to_string(), ticker("2", "1", "1.5")),
            ("eth_usd".to_string(), ticker("1", "1", "1")),
        ]
    );
    let t = P2pb2b::new(&pairs).tickers(&response);
    assert_eq!(t.get(&"BTC_USD".to_string()), Some(Ticker::empty()));
    let t = GateIo::new(&pairs).tickers(&vec![report("btc_usd", ticker("5", "4", "4.5"))]);
    assert_eq!(
        sorted(&t),
        vec![("BTC_USD".to_string(), Ticker::empty()), ("btc_usd".to_string(), ticker("5", "4", "4.5"))]
    );
}

#[test]
fn yobit_copies_without_taking() {
    let pairs = vec![pair("btc", "usd"), pair("BTC", "USD")];
    let t = Yobit::new(&pairs).tickers(&vec![report("btc_usd", ticker("5", "4", "4.5"))]);
    assert_eq!(
        sorted(&t),
        vec![("BTC_USD".to_string(), ticker("5", "4", "4.5")), ("btc_usd".to_string(), ticker("5", "4", "4.5"))]
    );
}

#[test]
fn yobit_endpoints_are_batches_of_fifty() {
    let pairs: Vec<CurrencyPair> = (0..120).map(|i| pair(&format!("c{}", i), "usd")).collect();
    let mut y = Yobit::new(&pairs);
    let first = y.next_endpoint();
    let second = y.next_endpoint();
    let third = y.next_endpoint();
    let again = y.next_endpoint();
    let names: Vec<String> = (0..120).map(|i| format!("c{}_usd", i)).collect();
    assert_eq!(first, format!("https://yobit.net/api/3/ticker/{}?ignore_invalid=1", names[0..50].join("-")));
    assert_eq!(second, format!("https://yobit.net/api/3/ticker/{}?ignore_invalid=1", names[50..100].join("-")));
    assert_eq!(third, format!("https://yobit.net/api/3/ticker/{}?ignore_invalid=1", names[100..120].join("-")));
    assert_eq!(again, first);
}

#[test]
fn yobit_endpoint_counts() {
    let two = vec![pair("btc", "usd"), pair("eth", "usd")];
    let mut y = Yobit::new(&two);
    assert_eq!(y.next_endpoint(), "https://yobit.net/api/3/ticker/btc_usd-eth_usd?ignore_invalid=1");
    assert_eq!(y.next_endpoint(), "https://yobit.net/api/3/ticker/btc_usd-eth_usd?ignore_invalid=1");
    let fifty: Vec<CurrencyPair> = (0..50).map(|i| pair(&format!("c{}", i), "usd")).collect();
    let mut y = Yobit::new(&fifty);
    let a = y.next_endpoint();
    assert_eq!(y.next_endpoint(), a);
    let fifty_one: Vec<CurrencyPair> = (0..51).map(|i| pair(&format!("c{}", i), "usd")).collect();
    let mut y = Yobit::new(&fifty_one);
    let a = y.next_endpoint();
    let b = y.next_endpoint();
    assert_ne!(a, b);
    assert_eq!(b, "https://yobit.net/api/3/ticker/c50_usd?ignore_invalid=1");
    assert_eq!(y.next_endpoint(), a);
}

#[test]
fn binance_unknown_symbols_change_nothing() {
    let pairs = vec![pair("btc", "usdt"), pair("eth", "usdt")];
    let b = Binance::new(&pairs);
    let book = |s: &str, bid: &str, ask: &str| BookTicker { symbol: s.to_string(), bid_price: price(bid), ask_price: price(ask) };
    let last = |s: &str, p: &str| SymbolPrice { symbol: s.to_string(), price: price(p) };
    let orders = vec![book("BTCUSDT", "1", "2")];
    let prices = vec![last("BTCUSDT", "1.5")];
    let more_orders = vec![book("XRPUSDT", "7", "8"), book("BTCUSDT", "1", "2"), book("DOGEUSDT", "0", "0")];
    let more_prices =
        vec![last("ETHUSDT", "3"), last("BTCUSDT", "1.5"), last("XRPUSDT", "7.5"), last("LTCBTC", "9")];
    assert_eq!(sorted(&b.tickers(&orders, &prices)), sorted(&b.tickers(&more_orders, &more_prices)));
    assert_eq!(sorted(&b.tickers(&more_orders, &more_prices)).len(), 1);
}
