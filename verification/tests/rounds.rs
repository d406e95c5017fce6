use ticker_aggregator::aggregator::{PollRound, RoundResults};
use ticker_aggregator::exchanges::Ticker;
use ticker_aggregator::table::TickerTable;

#[test]
fn a_round_asks_each_exchange_until_it_answers() {
    let mut r = PollRound::start(3);
    assert_eq!(r.len(), 3);
    assert!(r.wants_poll(0) && r.wants_poll(1) && r.wants_poll(2));
    r.record_answer(1);
    assert!(r.wants_poll(0));
    assert!(!r.wants_poll(1));
    r.record_answer(1);
    assert!(!r.wants_poll(1));
    r.reset();
    assert!(r.wants_poll(1));
    assert_eq!(r.len(), 3);
}

#[test]
fn an_empty_round() {
    let mut r = PollRound::start(0);
    assert_eq!(r.len(), 0);
    r.reset();
    assert_eq!(r.len(), 0);
}

#[test]
fn a_round_keeps_successful_answers_by_name() {
    let mut r = PollRound::start(2);
    let mut results = RoundResults::new();
    let mut t = TickerTable::new();
    t.insert("btc_usd".to_string(), Ticker::empty());
    r.take_answer(&mut results, 0, "Binance", Ok::<TickerTable, String>(t));
    r.take_answer(&mut results, 1, "OKEx", Err::<TickerTable, String>("timeout".to_string()));
    assert!(!r.wants_poll(0));
    assert!(!r.wants_poll(1));
    let entries = results.into_entries();
    assert_eq!(entries.len(), 1);
    assert_eq!(entries[0].0, "Binance");
    assert_eq!(entries[0].1.get(&"btc_usd".to_string()), Some(Ticker::empty()));
}
