//! YoBit: the pairs are asked for in batches, one request per batch, each
//! request naming its batch in the URL; the requests take turns.
use vstd::prelude::*;

use crate::exchanges::listing::{picked, pick_listed, reports_by_symbol, table_of_reports, ticker_reports, SymbolTicker};
use crate::exchanges::{pair_name, CurrencyPair, CurrencyPairList};
use crate::table::TickerTable;
use crate::text::{join_with, str_lower, to_lower};

verus! {

/// How many pairs one request names at most.
pub const PAIRS_PER_REQUEST: usize = 50;

/// The address every request starts with.
pub const TICKER_BASE_ENDPOINT: &'static str = "https://yobit.net/api/3/ticker";

/// The query every request ends with.
pub const ENDPOINT_PARAMETER: &'static str = "ignore_invalid=1";

/// YoBit's symbol of a pair: `"{quote}_{base}"` in lower case.
pub open spec fn yobit_symbol(pair: CurrencyPair) -> Seq<char> {
    str_lower(pair_name(pair.quote@, pair.base@))
}

/// YoBit spells a pair's symbol exactly so, for every pair.
pub proof fn lemma_symbol_spelling(pair: CurrencyPair)
    ensures
        yobit_symbol(pair) == str_lower(pair.quote@ + seq!['_'] + pair.base@),
{
    assert(yobit_symbol(pair) =~= str_lower(pair.quote@ + seq!['_'] + pair.base@));
}

/// YoBit's symbol of a pair.
pub fn symbol_of(pair: &CurrencyPair) -> (s: String)
    ensures
        s@ == yobit_symbol(*pair),
        s@ == str_lower(pair.quote@ + seq!['_'] + pair.base@),
{
    let name = join_with(pair.quote.as_str(), "_", pair.base.as_str());
    proof {
        reveal_strlit("_");
        assert(name@ =~= pair_name(pair.quote@, pair.base@));
    }
    to_lower(name.as_str())
}

/// How many requests `n` pairs take: `n` divided by the batch size, rounded up.
pub open spec fn part_count(n: nat) -> nat {
    if n % 50 == 0 {
        n / 50
    } else {
        n / 50 + 1
    }
}

/// The smaller of two numbers.
pub open spec fn min_nat(a: nat, b: nat) -> nat {
    if a <= b {
        a
    } else {
        b
    }
}

/// The symbols of batch `part`: the next 50, or the rest where fewer are left.
pub open spec fn chunk(symbols: Seq<Seq<char>>, part: nat) -> Seq<Seq<char>> {
    symbols.subrange(min_nat(part * 50, symbols.len()) as int, min_nat(part * 50 + 50, symbols.len()) as int)
}

/// The symbols joined with `-` between them.
pub open spec fn join_dash(parts: Seq<Seq<char>>) -> Seq<char>
    decreases parts.len(),
{
    if parts.len() == 0 {
        Seq::empty()
    } else if parts.len() == 1 {
        parts[0]
    } else {
        join_dash(parts.drop_last()) + seq!['-'] + parts.last()
    }
}

/// The address of a request that names `parameters`.
pub open spec fn endpoint_url(parameters: Seq<char>) -> Seq<char> {
    TICKER_BASE_ENDPOINT@ + seq!['/'] + parameters + seq!['?'] + ENDPOINT_PARAMETER@
}

/// The addresses of the requests for the given symbols, one per batch.
pub open spec fn endpoint_urls(symbols: Seq<Seq<char>>) -> Seq<Seq<char>> {
    Seq::new(part_count(symbols.len()), |k: int| endpoint_url(join_dash(chunk(symbols, k as nat))))
}

/// The next position in a turn of `len` requests.
pub open spec fn rotate(current: nat, len: nat) -> nat {
    (current + 1) % len
}

/// The symbols of the first `k` batches, one after the other.
pub open spec fn batches_upto(symbols: Seq<Seq<char>>, k: nat) -> Seq<Seq<char>>
    decreases k,
{
    if k == 0 {
        Seq::empty()
    } else {
        batches_upto(symbols, (k - 1) as nat) + chunk(symbols, (k - 1) as nat)
    }
}

/// The position after `k` turns from `current`.
pub open spec fn rotate_n(current: nat, len: nat, k: nat) -> nat
    decreases k,
{
    if k == 0 {
        current
    } else {
        rotate(rotate_n(current, len, (k - 1) as nat), len)
    }
}

proof fn lemma_batches_prefix(symbols: Seq<Seq<char>>, k: nat)
    ensures
        batches_upto(symbols, k) =~= symbols.subrange(0, min_nat(k * 50, symbols.len()) as int),
    decreases k,
{
    if k > 0 {
        lemma_batches_prefix(symbols, (k - 1) as nat);
        assert((k - 1) * 50 + 50 == k * 50) by (nonlinear_arith);
    }
}

/// The batches split the symbols: one after the other they give back every
/// symbol once, in the order of the list; each holds at least one symbol and
/// at most 50, and there are as many as `n / 50` rounded up.
pub proof fn lemma_batches_partition(symbols: Seq<Seq<char>>)
    ensures
        batches_upto(symbols, part_count(symbols.len())) == symbols,
        forall|k: nat| k < part_count(symbols.len()) ==> 0 < #[trigger] chunk(symbols, k).len() <= 50,
{
    let n = symbols.len();
    let pc = part_count(n);
    lemma_batches_prefix(symbols, pc);
    assert(pc * 50 >= n) by (nonlinear_arith)
        requires
            pc == (if n % 50 == 0 { n / 50 } else { n / 50 + 1 }),
    ;
    assert(symbols.subrange(0, n as int) =~= symbols);
    assert forall|k: nat| k < pc implies 0 < #[trigger] chunk(symbols, k).len() <= 50 by {
        assert(k * 50 < n) by (nonlinear_arith)
            requires
                k < pc,
                pc == (if n % 50 == 0 { n / 50 } else { n / 50 + 1 }),
        ;
    }
}

/// After as many turns as there are requests, the turn is back where it started.
pub proof fn lemma_rotation_returns(current: nat, len: nat)
    requires
        current < len,
    ensures
        rotate_n(current, len, len) == current,
{
    lemma_rotate_n(current, len, len);
    assert((current + len) % len == current) by (nonlinear_arith)
        requires
            current < len,
    ;
}

proof fn lemma_rotate_n(current: nat, len: nat, k: nat)
    requires
        current < len,
    ensures
        rotate_n(current, len, k) == (current + k) % len,
    decreases k,
{
    if k == 0 {
        assert(current % len == current) by (nonlinear_arith)
            requires
                current < len,
        ;
    } else {
        lemma_rotate_n(current, len, (k - 1) as nat);
        let c = (current + (k - 1) as nat) % len;
        assert((c + 1) % len == (current + k) % len) by (nonlinear_arith)
            requires
                c == (current + (k - 1) as nat) % len,
                len > 0,
                k > 0,
        ;
    }
}

/// YoBit, asked for a list of pairs in batches.
pub struct Yobit<'a> {
    pairs: CurrencyPairList<'a>,
    endpoints: Vec<String>,
    current_endpoint: usize,
}

impl<'a> Yobit<'a> {
    #[verifier::type_invariant]
    spec fn turn_in_range(self) -> bool {
        &&& self.endpoints@.len() > 0 ==> self.current_endpoint < self.endpoints@.len()
        &&& self.endpoints@.len() == 0 ==> self.current_endpoint == 0
    }

    /// The pairs, each with YoBit's symbol.
    pub closed spec fn pair_list(&self) -> CurrencyPairList<'a> {
        self.pairs
    }

    /// The request addresses, in turn order.
    pub closed spec fn endpoints(&self) -> Seq<Seq<char>> {
        self.endpoints@.map_values(|s: String| s@)
    }

    /// The position of the next request.
    pub closed spec fn current(&self) -> nat {
        self.current_endpoint as nat
    }

    /// Lists the pairs under YoBit's symbols and prepares one request per
    /// batch of 50 symbols; the first request is the next.
    pub fn new(currency_pairs: &'a Vec<CurrencyPair>) -> (y: Self)
        ensures
            y.pair_list().wf(),
            y.pair_list().pairs() == currency_pairs@,
            y.pair_list().symbols() == currency_pairs@.map_values(|p: CurrencyPair| yobit_symbol(p)),
            forall|i: int|
                0 <= i < currency_pairs@.len() ==> #[trigger] y.pair_list().symbols()[i] == str_lower(currency_pairs@[i].quote@ + seq!['_'] + currency_pairs@[i].base@),
            y.endpoints() == endpoint_urls(y.pair_list().symbols()),
            y.current() == 0,
    {
        let pairs = CurrencyPairList::new(currency_pairs, symbol_of);
        let ghost symbols = pairs.symbols();
        assert(symbols =~= currency_pairs@.map_values(|p: CurrencyPair| yobit_symbol(p))) by {
            assert forall|i: int| 0 <= i < symbols.len() implies symbols[i] == yobit_symbol(
                currency_pairs@[i],
            ) by {
                assert(call_ensures(symbol_of, (&currency_pairs@[i],), pairs.symbol_strings()[i]));
            }
        }
        let n = pairs.len();
        let part_count_exec = if n % PAIRS_PER_REQUEST == 0 {
            n / PAIRS_PER_REQUEST
        } else {
            n / PAIRS_PER_REQUEST + 1
        };
        let mut endpoints: Vec<String> = Vec::with_capacity(part_count_exec);
        for part in 0..part_count_exec
            invariant
                n == symbols.len(),
                symbols == pairs.symbols(),
                part_count_exec == part_count(n as nat),
                endpoints@.len() == part,
                forall|k: int|
                    0 <= k < part ==> #[trigger] endpoints@[k]@ == endpoint_url(
                        join_dash(chunk(symbols, k as nat)),
                    ),
        {
            assert(part * 50 < n) by (nonlinear_arith)
                requires
                    part < part_count_exec,
                    part_count_exec as int == (if n as int % 50 == 0 { n as int / 50 } else { n as int / 50 + 1 }),
            ;
            let start = part * PAIRS_PER_REQUEST;
            let end = if n - start >= PAIRS_PER_REQUEST {
                start + PAIRS_PER_REQUEST
            } else {
                n
            };
            let ghost c = chunk(symbols, part as nat);
            assert(c =~= symbols.subrange(start as int, end as int));
            let mut parameters = String::new();
            for i in start..end
                invariant
                    start < end <= n,
                    n == symbols.len(),
                    symbols == pairs.symbols(),
                    parameters@ == join_dash(symbols.subrange(start as int, i as int)),
            {
                let ghost before = symbols.subrange(start as int, i as int);
                let ghost after = symbols.subrange(start as int, i + 1);
                assert(after.drop_last() =~= before);
                if i > start {
                    parameters.append("-");
                }
                parameters.append(pairs.symbol_at(i).as_str());
                proof {
                    reveal_strlit("-");
                    if i == start {
                        assert(after.len() == 1);
                        assert(parameters@ =~= join_dash(after));
                    } else {
                        assert(parameters@ =~= join_dash(after));
                    }
                }
            }
            let mut endpoint = String::from_str(TICKER_BASE_ENDPOINT);
            endpoint.append("/");
            endpoint.append(parameters.as_str());
            endpoint.append("?");
            endpoint.append(ENDPOINT_PARAMETER);
            proof {
                reveal_strlit("/");
                reveal_strlit("?");
                assert(endpoint@ =~= endpoint_url(join_dash(c)));
            }
            endpoints.push(endpoint);
        }
        let y = Yobit { pairs, endpoints, current_endpoint: 0 };
        assert(y.endpoints() =~= endpoint_urls(symbols));
        y
    }

    /// How many requests a turn has.
    pub fn endpoint_count(&self) -> (n: usize)
        ensures
            n == self.endpoints().len(),
    {
        self.endpoints.len()
    }

    /// The address of the next request; the turn passes to the request after
    /// it, and from the last back to the first.
    pub fn next_endpoint(&mut self) -> (endpoint: String)
        requires
            old(self).endpoints().len() > 0,
        ensures
            endpoint@ == old(self).endpoints()[old(self).current() as int],
            final(self).current() == rotate(old(self).current(), old(self).endpoints().len()),
            final(self).endpoints() == old(self).endpoints(),
            final(self).pair_list() == old(self).pair_list(),
    {
        proof {
            use_type_invariant(&*self);
            assert(self.endpoints@.len() == self.endpoints().len());
        }
        let len = self.endpoints.len();
        let current = self.current_endpoint;
        let endpoint = self.endpoints[current].clone();
        self.current_endpoint = (current + 1) % len;
        endpoint
    }

    /// The tickers of the listed pairs in a response, read in document order,
    /// under the pairs' names.
    pub fn tickers(&self, response: &Vec<SymbolTicker>) -> (t: TickerTable)
        ensures
            t@ == picked(
                self.pair_list(),
                reports_by_symbol(ticker_reports(response@)),
                false,
                self.pair_list().pairs().len(),
            ).0,
    {
        let mut by_symbol = table_of_reports(response);
        pick_listed(&self.pairs, &mut by_symbol, false)
    }
}

} // verus!
