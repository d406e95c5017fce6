# ticker_aggregator

Collects the tickers (best ask, best bid, last price) of a configured list of
currency pairs from several cryptocurrency exchanges, once a second, and
publishes them by exchange and pair name.

- `src/` is the library, verified with Verus:
  - `exchanges/mod.rs`: currency pairs, tickers, and the list of pairs with
    the symbol an exchange gives each (`CurrencyPairList::new`, `find`);
  - `exchanges/listing.rs`: how reports under exchange symbols become
    tickers under pair names, with the laws that only listed pairs get
    tickers;
  - one module per exchange: its symbols and how its answer is read; YoBit's
    batched request addresses and their turns;
  - `table.rs`: the tickers of one exchange in a `hashbrown` map;
  - `text.rs`: case mapping and joining of strings;
  - `aggregator.rs`: which exchanges have answered in a round, and the
    tickers their successful answers gave, by exchange name.
- `app/` is the program: reading `settings.json`, the HTTP requests and JSON
  decoding, the concurrent rounds, and publishing.
- `tests/` runs the library on concrete values.
