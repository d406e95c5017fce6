//! The bookkeeping of one aggregation round: which exchanges have answered,
//! and the tickers their answers gave.
//!
//! Each round every exchange is asked once; an exchange that has answered is
//! not asked again until the next round begins. A successful answer is kept
//! under the exchange's name; a failed one is dropped.
use vstd::prelude::*;

use crate::exchanges::TickerView;
use crate::table::TickerTable;

verus! {

/// A `hashbrown::HashMap<&'static str, TickerTable>`: the tickers of each
/// exchange that has answered, by exchange name. The map sits in a field
/// that Verus does not read; what it holds is `results_contents`.
#[verifier::external_body]
pub struct RoundResults {
    map: hashbrown::HashMap<&'static str, TickerTable>,
}

/// What the results hold: each exchange name's characters mapped to what
/// its table holds.
pub uninterp spec fn results_contents(r: RoundResults) -> Map<Seq<char>, Map<Seq<char>, TickerView>>;

impl View for RoundResults {
    type V = Map<Seq<char>, Map<Seq<char>, TickerView>>;

    open spec fn view(&self) -> Map<Seq<char>, Map<Seq<char>, TickerView>> {
        results_contents(*self)
    }
}

/// Calls `hashbrown::HashMap::new`. Trusted: the new map holds nothing.
#[verifier::external_body]
fn results_new() -> (fresh: RoundResults)
    ensures
        results_contents(fresh) =~= Map::empty(),
{
    RoundResults { map: hashbrown::HashMap::new() }
}

/// Calls `hashbrown::HashMap::insert`. Trusted: afterwards the name maps to
/// the table and every other name keeps its table (names compare by their
/// characters). The replaced table, which `insert` returns, is dropped.
#[verifier::external_body]
fn results_insert(r: &mut RoundResults, name: &'static str, tickers: TickerTable)
    ensures
        results_contents(*final(r)) == results_contents(*old(r)).insert(name@, tickers@),
{
    r.map.insert(name, tickers);
}

/// Calls `hashbrown::HashMap::into_iter` and collects the entries. Trusted:
/// the entries are those of the map, each once; the order is the map's own
/// walk and is left unsaid.
#[verifier::external_body]
fn results_into_entries(r: RoundResults) -> (v: Vec<(&'static str, TickerTable)>)
    ensures
        forall|i: int|
            0 <= i < v@.len() ==> results_contents(r).contains_key(#[trigger] v@[i].0@) && results_contents(r)[v@[i].0@]
                == v@[i].1@,
        forall|i: int, j: int| 0 <= i < j < v@.len() ==> v@[i].0@ != v@[j].0@,
        forall|k: Seq<char>|
            #[trigger] results_contents(r).contains_key(k) ==> exists|i: int| 0 <= i < v@.len() && v@[i].0@ == k,
{
    r.map.into_iter().collect()
}

impl RoundResults {
    /// No results yet.
    pub fn new() -> (r: RoundResults)
        ensures
            r@ == Map::<Seq<char>, Map<Seq<char>, TickerView>>::empty(),
    {
        results_new()
    }

    /// Every exchange name with its tickers, each once, in no particular order.
    pub fn into_entries(self) -> (v: Vec<(&'static str, TickerTable)>)
        ensures
            forall|i: int| 0 <= i < v@.len() ==> self@.contains_key(#[trigger] v@[i].0@) && self@[v@[i].0@] == v@[i].1@,
            forall|i: int, j: int| 0 <= i < j < v@.len() ==> v@[i].0@ != v@[j].0@,
            forall|k: Seq<char>| #[trigger] self@.contains_key(k) ==> exists|i: int| 0 <= i < v@.len() && v@[i].0@ == k,
    {
        results_into_entries(self)
    }
}

/// The results after an exchange's answer is recorded: a successful answer
/// puts its tickers under the exchange's name, over anything there before; a
/// failed one changes nothing.
pub open spec fn with_answer<E>(
    results: Map<Seq<char>, Map<Seq<char>, TickerView>>,
    name: Seq<char>,
    answer: Result<TickerTable, E>,
) -> Map<Seq<char>, Map<Seq<char>, TickerView>> {
    match answer {
        Ok(tickers) => results.insert(name, tickers@),
        Err(_) => results,
    }
}

/// Which exchanges have answered in the current round, by position.
pub struct PollRound {
    checked: Vec<bool>,
}

impl View for PollRound {
    type V = Seq<bool>;

    closed spec fn view(&self) -> Seq<bool> {
        self.checked@
    }
}

impl PollRound {
    /// A round over `count` exchanges, none of which has answered.
    pub fn start(count: usize) -> (r: PollRound)
        ensures
            r@ == Seq::new(count as nat, |i: int| false),
    {
        let mut checked: Vec<bool> = Vec::new();
        for i in 0..count
            invariant
                checked@ == Seq::new(i as nat, |j: int| false),
        {
            checked.push(false);
        }
        PollRound { checked }
    }

    /// How many exchanges the round is over.
    pub fn len(&self) -> (n: usize)
        ensures
            n == self@.len(),
    {
        self.checked.len()
    }

    /// Begins a new round: no exchange has answered in it yet.
    pub fn reset(&mut self)
        ensures
            final(self)@ == Seq::new(old(self)@.len(), |i: int| false),
    {
        let n = self.checked.len();
        for i in 0..n
            invariant
                n == self.checked@.len(),
                forall|j: int| 0 <= j < i ==> !self.checked@[j],
        {
            self.checked.set(i, false);
        }
        assert(self@ =~= Seq::new(old(self)@.len(), |i: int| false));
    }

    /// Whether exchange `i` is still to be asked in this round.
    pub fn wants_poll(&self, i: usize) -> (b: bool)
        requires
            i < self@.len(),
        ensures
            b == !self@[i as int],
    {
        !self.checked[i]
    }

    /// Records the answer of exchange `i`, named `name`: the exchange has
    /// answered in this round, and a successful answer's tickers are kept
    /// under its name while a failed answer is dropped.
    pub fn take_answer<E>(
        &mut self,
        results: &mut RoundResults,
        i: usize,
        name: &'static str,
        answer: Result<TickerTable, E>,
    )
        requires
            i < old(self)@.len(),
        ensures
            final(self)@ == old(self)@.update(i as int, true),
            final(results)@ == with_answer(old(results)@, name@, answer),
            answer matches Ok(t) ==> final(results)@.contains_key(name@) && final(results)@[name@] == t@,
            answer is Err ==> final(results)@ == old(results)@,
            forall|k: Seq<char>|
                k != name@ ==> (#[trigger] final(results)@.contains_key(k) == old(results)@.contains_key(k)
                    && (old(results)@.contains_key(k) ==> final(results)@[k] == old(results)@[k])),
    {
        proof {
            lemma_with_answer(old(results)@, name@, answer);
        }
        self.record_answer(i);
        match answer {
            Ok(tickers) => results_insert(results, name, tickers),
            Err(_) => {},
        }
    }

    /// Records that exchange `i` has answered in this round.
    pub fn record_answer(&mut self, i: usize)
        requires
            i < old(self)@.len(),
        ensures
            final(self)@ == old(self)@.update(i as int, true),
    {
        self.checked.set(i, true);
    }
}

/// What recording an answer does to the results: a successful answer's
/// tickers stand under the exchange's name exactly as they came, empty or
/// not; a failed answer changes nothing; every other name keeps what it had.
pub proof fn lemma_with_answer<E>(
    results: Map<Seq<char>, Map<Seq<char>, TickerView>>,
    name: Seq<char>,
    answer: Result<TickerTable, E>,
)
    ensures
        answer matches Ok(t) ==> with_answer(results, name, answer).contains_key(name) && with_answer(
            results,
            name,
            answer,
        )[name] == t@,
        answer is Err ==> with_answer(results, name, answer) == results,
        forall|k: Seq<char>|
            k != name ==> (#[trigger] with_answer(results, name, answer).contains_key(k) == results.contains_key(k)
                && (results.contains_key(k) ==> with_answer(results, name, answer)[k] == results[k])),
{
}

/// Once an exchange has answered, the round does not ask it again, whatever
/// else is recorded, until the round is reset.
pub proof fn lemma_answered_not_asked_again(round: Seq<bool>, i: int, later: Seq<int>)
    requires
        0 <= i < round.len(),
        forall|k: int| 0 <= k < later.len() ==> 0 <= #[trigger] later[k] < round.len(),
    ensures
        answered_after(round.update(i, true), later)[i],
{
    lemma_answered_stays(round.update(i, true), later, i);
}

/// The answers recorded after `recorded`, in order.
pub open spec fn answered_after(round: Seq<bool>, recorded: Seq<int>) -> Seq<bool>
    decreases recorded.len(),
{
    if recorded.len() == 0 {
        round
    } else {
        answered_after(round, recorded.drop_last()).update(recorded.last(), true)
    }
}

proof fn lemma_answered_stays(round: Seq<bool>, recorded: Seq<int>, i: int)
    requires
        0 <= i < round.len(),
        round[i],
        forall|k: int| 0 <= k < recorded.len() ==> 0 <= #[trigger] recorded[k] < round.len(),
    ensures
        answered_after(round, recorded).len() == round.len(),
        answered_after(round, recorded)[i],
    decreases recorded.len(),
{
    if recorded.len() > 0 {
        lemma_answered_stays(round, recorded.drop_last(), i);
    }
}

} // verus!
