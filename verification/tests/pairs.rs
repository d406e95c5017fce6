use ticker_aggregator::exchanges::{CurrencyPair, CurrencyPairList, ExchangeSettings, Exchanges, Ticker};
use ticker_aggregator::table::TickerTable;
use ticker_aggregator::text::{concatenated, join_with};

fn pair(quote: &str, base: &str) -> CurrencyPair {
    CurrencyPair { base: base.to_string(), quote: quote.to_string() }
}

#[test]
fn pair_name_is_quote_underscore_base() {
    assert_eq!(pair("btc", "usd").to_string(), "btc_usd");
    assert_eq!(pair("", "").to_string(), "_");
}

#[test]
fn pair_list_keeps_order_and_symbols() {
    let pairs = vec![pair("btc", "usd"), pair("eth", "btc")];
    let list = CurrencyPairList::new(&pairs, |p: &CurrencyPair| format!("{}:{}", p.quote, p.base));
    assert_eq!(list.len(), 2);
    assert_eq!(list.pair_at(0), &pairs[0]);
    assert_eq!(list.pair_at(1), &pairs[1]);
    assert_eq!(list.symbol_at(0), "btc:usd");
    assert_eq!(list.symbol_at(1), "eth:btc");
}

#[test]
fn find_gives_the_first_pair_with_the_symbol() {
    let pairs = vec![pair("btc", "usd"), pair("eth", "usd"), pair("ltc", "usd")];
    // two pairs share a symbol: the first one is found
    let list = CurrencyPairList::new(&pairs, |p: &CurrencyPair| {
        if p.quote == "ltc" { "X".to_string() } else if p.quote == "eth" { "X".to_string() } else { p.quote.clone() }
    });
    assert_eq!(list.find(&"btc".to_string()), Some(&pairs[0]));
    assert_eq!(list.find(&"X".to_string()), Some(&pairs[1]));
    assert_eq!(list.find(&"ltc".to_string()), None);
}

#[test]
fn find_in_an_empty_list() {
    let pairs: Vec<CurrencyPair> = vec![];
    let list = CurrencyPairList::new(&pairs, |p: &CurrencyPair| p.quote.clone());
    assert_eq!(list.len(), 0);
    assert_eq!(list.find(&"btc".to_string()), None);
}

#[test]
fn ticker_table_insert_get_entries() {
    let mut t = TickerTable::new();
    assert!(t.entries().is_empty());
    t.insert("a".to_string(), Ticker { ask: Some("1".to_string()), bid: None, last: None });
    t.insert("b".to_string(), Ticker::empty());
    t.insert("a".to_string(), Ticker { ask: Some("2".to_string()), bid: None, last: None });
    assert_eq!(t.get(&"a".to_string()).unwrap().ask, Some("2".to_string()));
    assert_eq!(t.get(&"b".to_string()), Some(Ticker::empty()));
    assert_eq!(t.get(&"c".to_string()), None);
    let mut entries = t.entries();
    entries.sort_by(|x, y| x.0.cmp(&y.0));
    assert_eq!(entries.len(), 2);
    assert_eq!(entries[0].0, "a");
    assert_eq!(entries[1].0, "b");
}

#[test]
fn ticker_duplicate_and_empty() {
    let t = Ticker { ask: Some("1.5".to_string()), bid: Some("1.4".to_string()), last: None };
    assert_eq!(t.duplicate(), t);
    assert_eq!(Ticker::empty(), Ticker { ask: None, bid: None, last: None });
}

#[test]
fn text_joins() {
    assert_eq!(join_with("a", "-", "b"), "a-b");
    assert_eq!(concatenated("ab", "cd"), "abcd");
}

#[test]
fn settings_types_hold_their_values() {
    let s = ExchangeSettings { public_key: Some("k".to_string()) };
    let e = Exchanges {
        hit_btc: Some(s.clone()),
        yobit: None,
        live_coin: None,
        exmo: None,
        binance: None,
        polonex: None,
        gate_io: None,
    };
    assert_eq!(e.hit_btc, Some(s));
}
