//! The tickers of one exchange, keyed by name, held in a `hashbrown` map.
use vstd::prelude::*;

use crate::exchanges::{Ticker, TickerView};

verus! {

/// A `hashbrown::HashMap<String, Ticker>`. The map sits in a field that
/// Verus does not read; what it holds is `table_contents`.
#[verifier::external_body]
pub struct TickerTable {
    map: hashbrown::HashMap<String, Ticker>,
}

/// What a table holds: each key's characters mapped to its ticker.
pub uninterp spec fn table_contents(t: TickerTable) -> Map<Seq<char>, TickerView>;

impl View for TickerTable {
    type V = Map<Seq<char>, TickerView>;

    open spec fn view(&self) -> Map<Seq<char>, TickerView> {
        table_contents(*self)
    }
}

/// Calls `hashbrown::HashMap::new`. Trusted: the new map holds nothing.
#[verifier::external_body]
fn map_new() -> (fresh: TickerTable)
    ensures
        table_contents(fresh) =~= Map::empty(),
{
    TickerTable { map: hashbrown::HashMap::new() }
}

/// Calls `hashbrown::HashMap::insert`. Trusted: afterwards the key maps to the
/// value and every other key keeps its value (keys compare as `String`s, that
/// is by their characters). The replaced value, which `insert` returns, is
/// dropped.
#[verifier::external_body]
fn map_insert(t: &mut TickerTable, key: String, value: Ticker)
    ensures
        table_contents(*final(t)) == table_contents(*old(t)).insert(key@, value@),
{
    t.map.insert(key, value);
}

/// Calls `hashbrown::HashMap::get` and clones what it finds. Trusted: the
/// result is the key's value, or `None` where the map holds no such key.
#[verifier::external_body]
fn map_get(t: &TickerTable, key: &String) -> (r: Option<Ticker>)
    ensures
        r is Some <==> table_contents(*t).contains_key(key@),
        r matches Some(v) ==> v@ == table_contents(*t)[key@],
{
    t.map.get(key).cloned()
}

/// Calls `hashbrown::HashMap::iter` and clones each entry. Trusted: the
/// entries are those of the map, each once; the order is the map's own
/// walk and is left unsaid.
#[verifier::external_body]
fn map_entries(t: &TickerTable) -> (r: Vec<(String, Ticker)>)
    ensures
        forall|i: int|
            0 <= i < r@.len() ==> table_contents(*t).contains_key(#[trigger] r@[i].0@) && table_contents(*t)[r@[i].0@] == r@[i].1@,
        forall|i: int, j: int| 0 <= i < j < r@.len() ==> r@[i].0@ != r@[j].0@,
        forall|k: Seq<char>| #[trigger] table_contents(*t).contains_key(k) ==> exists|i: int| 0 <= i < r@.len() && r@[i].0@ == k,
{
    t.map.iter().map(|(k, v)| (k.clone(), v.clone())).collect()
}

impl TickerTable {
    /// A table with no ticker.
    pub fn new() -> (t: TickerTable)
        ensures
            t@ == Map::<Seq<char>, TickerView>::empty(),
    {
        map_new()
    }

    /// Puts `ticker` under `name`, in place of any ticker there before.
    pub fn insert(&mut self, name: String, ticker: Ticker)
        ensures
            final(self)@ == old(self)@.insert(name@, ticker@),
    {
        map_insert(self, name, ticker)
    }

    /// A copy of the ticker under `name`, if there is one.
    pub fn get(&self, name: &String) -> (r: Option<Ticker>)
        ensures
            r is Some <==> self@.contains_key(name@),
            r matches Some(v) ==> v@ == self@[name@],
    {
        map_get(self, name)
    }

    /// Every name with its ticker, each once, in no particular order.
    pub fn entries(&self) -> (r: Vec<(String, Ticker)>)
        ensures
            forall|i: int|
                0 <= i < r@.len() ==> self@.contains_key(#[trigger] r@[i].0@) && self@[r@[i].0@] == r@[i].1@,
            forall|i: int, j: int| 0 <= i < j < r@.len() ==> r@[i].0@ != r@[j].0@,
            forall|k: Seq<char>|
                #[trigger] self@.contains_key(k) ==> exists|i: int| 0 <= i < r@.len() && r@[i].0@ == k,
    {
        map_entries(self)
    }
}

} // verus!
