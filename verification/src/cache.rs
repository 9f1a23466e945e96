//! The stampede-safe quote cache.
//!
//! The cache answers price lookups from a bounded symbol-to-price map and
//! deduplicates concurrent misses: the first caller to miss a symbol is told
//! to fetch it, every later caller is told to await that same fetch, and the
//! completion hands one price to all of them. The caller that performs the
//! fetch publishes the fresh price to the trigger engine and emits the audit
//! event; on a failed fetch nothing is cached and every waiter sees the
//! failure.
//!
//! Concurrency itself lives outside this type: callers serialise access (one
//! lock around the cache) and run the fetch without holding it. The
//! contracts here say that between `MustFetch` and the matching completion
//! no second fetch of the same symbol can be handed out.

use vstd::prelude::*;

verus! {

/// One cached quote.
#[derive(Debug, Clone, PartialEq, Eq)]
pub struct QuoteEntry {
    pub stock_symbol: String,
    pub price: u64,
}

/// What a lookup tells its caller to do.
#[derive(Clone, Copy, Debug, PartialEq, Eq, Structural)]
pub enum CacheLookup {
    /// The price was cached; no fetch happens.
    Hit(u64),
    /// Another caller is already fetching this symbol: await its result.
    AwaitInFlight,
    /// The caller must perform the fetch and report it back.
    MustFetch,
}

pub open spec fn entries_unique(s: Seq<QuoteEntry>) -> bool {
    forall|i: int, j: int|
        0 <= i < s.len() && 0 <= j < s.len() && i != j ==> s[i].stock_symbol@ != s[j].stock_symbol@
}

pub open spec fn has_entry_in(s: Seq<QuoteEntry>, sym: Seq<char>) -> bool {
    exists|i: int| 0 <= i < s.len() && s[i].stock_symbol@ == sym
}

pub open spec fn entry_index_in(s: Seq<QuoteEntry>, sym: Seq<char>) -> int {
    choose|i: int| 0 <= i < s.len() && s[i].stock_symbol@ == sym
}

/// The cached price of `sym`, if any.
pub open spec fn price_in(s: Seq<QuoteEntry>, sym: Seq<char>) -> Option<u64> {
    if has_entry_in(s, sym) {
        Some(s[entry_index_in(s, sym)].price)
    } else {
        None
    }
}

pub open spec fn flights_unique(s: Seq<String>) -> bool {
    forall|i: int, j: int| 0 <= i < s.len() && 0 <= j < s.len() && i != j ==> s[i]@ != s[j]@
}

/// Whether a fetch of `sym` is in flight.
pub open spec fn in_flight_in(s: Seq<String>, sym: Seq<char>) -> bool {
    exists|i: int| 0 <= i < s.len() && s[i]@ == sym
}

/// The single point both the order engine and the trigger engine get their
/// prices from.
pub struct QuoteCache {
    pub capacity: usize,
    pub entries: Vec<QuoteEntry>,
    pub in_flight: Vec<String>,
}

/// What one lookup does, as a relation between the cache before and after
/// the call and its outcome. Exactly one outcome is possible in each state:
/// a hit on a cached symbol, a wait while a fetch is in flight, and a fetch
/// for a cold symbol, which registers the flight.
pub open spec fn lookup_post(c0: QuoteCache, c1: QuoteCache, sym: Seq<char>, r: CacheLookup)
    -> bool {
    match r {
        CacheLookup::Hit(p) => price_in(c0.entries@, sym) == Some(p) && c1 == c0,
        CacheLookup::AwaitInFlight => {
            &&& price_in(c0.entries@, sym) is None
            &&& in_flight_in(c0.in_flight@, sym)
            &&& c1 == c0
        },
        CacheLookup::MustFetch => {
            &&& price_in(c0.entries@, sym) is None
            &&& !in_flight_in(c0.in_flight@, sym)
            &&& c1.entries@ == c0.entries@
            &&& c1.capacity == c0.capacity
            &&& in_flight_in(c1.in_flight@, sym)
            &&& forall|v: Seq<char>|
                v != sym ==> in_flight_in(c1.in_flight@, v) == in_flight_in(c0.in_flight@, v)
        },
    }
}

/// Whether recording a fetched price for `sym` must evict: the symbol is
/// new and the map already holds as many quotes as its capacity allows.
pub open spec fn fetch_evicts(c: QuoteCache, sym: Seq<char>) -> bool {
    &&& !has_entry_in(c.entries@, sym)
    &&& c.entries@.len() >= c.capacity
    &&& c.capacity > 0
}

impl QuoteCache {
    /// Well-formedness: one entry per symbol, one flight per symbol, the map
    /// bounded by its capacity, and cached prices positive.
    pub open spec fn wf(self) -> bool {
        &&& entries_unique(self.entries@)
        &&& flights_unique(self.in_flight@)
        &&& self.entries@.len() <= self.capacity
        &&& forall|i: int| 0 <= i < self.entries@.len() ==> #[trigger] self.entries@[i].price >= 1
    }

    /// The cached price of `sym`, if any.
    pub open spec fn price_of(self, sym: Seq<char>) -> Option<u64> {
        price_in(self.entries@, sym)
    }

    /// Whether a fetch of `sym` is in flight.
    pub open spec fn fetching(self, sym: Seq<char>) -> bool {
        in_flight_in(self.in_flight@, sym)
    }

    /// An empty cache that will hold at most `capacity` quotes.
    pub fn new(capacity: usize) -> (r: QuoteCache)
        ensures
            r.wf(),
            r.capacity == capacity,
            r.entries@ =~= Seq::<QuoteEntry>::empty(),
            r.in_flight@ =~= Seq::<String>::empty(),
    {
        QuoteCache { capacity, entries: Vec::new(), in_flight: Vec::new() }
    }

    /// Answer a price request, the single-flight way: a hit returns the
    /// cached price with no fetch; a miss makes this caller the fetcher only
    /// if nobody is fetching the symbol yet, and a waiter otherwise.
    pub fn lookup(&mut self, stock_symbol: &String) -> (r: CacheLookup)
        requires
            old(self).wf(),
        ensures
            final(self).wf(),
            lookup_post(*old(self), *final(self), stock_symbol@, r),
    {
        let mut k: usize = 0;
        while k < self.entries.len()
            invariant
                *self == *old(self),
                old(self).wf(),
                k <= self.entries@.len(),
                forall|j: int| 0 <= j < k ==> self.entries@[j].stock_symbol@ != stock_symbol@,
            decreases self.entries@.len() - k,
        {
            if self.entries[k].stock_symbol == *stock_symbol {
                proof {
                    assert(has_entry_in(self.entries@, stock_symbol@));
                    let i = entry_index_in(self.entries@, stock_symbol@);
                    assert(self.entries@[i].stock_symbol@ == stock_symbol@);
                    assert(i == k as int);
                }
                return CacheLookup::Hit(self.entries[k].price);
            }
            k += 1;
        }
        let mut f: usize = 0;
        while f < self.in_flight.len()
            invariant
                *self == *old(self),
                old(self).wf(),
                price_in(self.entries@, stock_symbol@) is None,
                f <= self.in_flight@.len(),
                forall|j: int| 0 <= j < f ==> self.in_flight@[j]@ != stock_symbol@,
            decreases self.in_flight@.len() - f,
        {
            if self.in_flight[f] == *stock_symbol {
                return CacheLookup::AwaitInFlight;
            }
            f += 1;
        }
        let ghost fl0 = self.in_flight@;
        self.in_flight.push(stock_symbol.clone());
        proof {
            assert(self.in_flight@ == fl0.push(*stock_symbol));
            assert(self.in_flight@[fl0.len() as int]@ == stock_symbol@);
            assert forall|v: Seq<char>|
                v != stock_symbol@ implies in_flight_in(self.in_flight@, v) == in_flight_in(
                fl0,
                v,
            ) by {
                if in_flight_in(self.in_flight@, v) {
                    let j = choose|j: int| 0 <= j < self.in_flight@.len() && self.in_flight@[j]@ == v;
                    assert(fl0[j]@ == v);
                }
                if in_flight_in(fl0, v) {
                    let j = choose|j: int| 0 <= j < fl0.len() && fl0[j]@ == v;
                    assert(self.in_flight@[j]@ == v);
                }
            }
            assert(flights_unique(self.in_flight@)) by {
                assert forall|i: int, j: int|
                    0 <= i < self.in_flight@.len() && 0 <= j < self.in_flight@.len() && i != j
                    implies self.in_flight@[i]@ != self.in_flight@[j]@ by {
                    if i < fl0.len() && j < fl0.len() {
                        assert(self.in_flight@[i] == fl0[i] && self.in_flight@[j] == fl0[j]);
                    } else if i < fl0.len() {
                        assert(self.in_flight@[i] == fl0[i]);
                        assert(in_flight_in(fl0, fl0[i]@));
                    } else {
                        assert(self.in_flight@[j] == fl0[j]);
                        assert(in_flight_in(fl0, fl0[j]@));
                    }
                }
            }
        }
        CacheLookup::MustFetch
    }

    /// Record a fetched price: the flight ends and the price is cached — an
    /// existing entry is refreshed, a new one is added, and when the map is
    /// full the oldest entry leaves to make room. The caller hands this same
    /// price to every waiter and publishes it to the trigger engine. Only a
    /// cache built with no room at all declines to cache.
    pub fn complete_fetch(&mut self, stock_symbol: &String, price: u64) -> (cached: bool)
        requires
            old(self).wf(),
            price >= 1,
        ensures
            final(self).wf(),
            !final(self).fetching(stock_symbol@),
            forall|v: Seq<char>|
                v != stock_symbol@ ==> final(self).fetching(v) == old(self).fetching(v),
            cached == (old(self).capacity > 0),
            cached ==> final(self).price_of(stock_symbol@) == Some(price),
            !cached ==> final(self).entries@ == old(self).entries@,
            forall|v: Seq<char>|
                v != stock_symbol@ ==> final(self).price_of(v) == (if fetch_evicts(
                    *old(self),
                    stock_symbol@,
                ) && v == old(self).entries@[0].stock_symbol@ {
                    None::<u64>
                } else {
                    old(self).price_of(v)
                }),
            final(self).capacity == old(self).capacity,
    {
        self.remove_flight(stock_symbol);
        let ghost mid = *self;
        let ghost e0 = self.entries@;
        let mut k: usize = 0;
        while k < self.entries.len()
            invariant
                *self == mid,
                mid.wf(),
                price >= 1,
                self.entries@ == e0,
                mid.capacity == old(self).capacity,
                !mid.fetching(stock_symbol@),
                forall|v: Seq<char>|
                    v != stock_symbol@ ==> mid.fetching(v) == old(self).fetching(v),
                e0 == old(self).entries@,
                k <= e0.len(),
                forall|j: int| 0 <= j < k ==> e0[j].stock_symbol@ != stock_symbol@,
            decreases e0.len() - k,
        {
            if self.entries[k].stock_symbol == *stock_symbol {
                let e = QuoteEntry {
                    stock_symbol: self.entries[k].stock_symbol.clone(),
                    price,
                };
                proof {
                    lemma_entry_update(e0, k as int, e);
                }
                self.entries[k] = e;
                proof {
                    assert(self.entries@ == e0.update(k as int, e));
                    assert forall|i: int|
                        0 <= i < self.entries@.len() implies #[trigger] self.entries@[i].price
                        >= 1 by {
                        if i != k {
                            assert(self.entries@[i] == e0[i]);
                        }
                    }
                }
                proof {
                assert forall|v: Seq<char>|
                    v != stock_symbol@ implies self.fetching(v) == old(self).fetching(v) by {
                    assert(mid.fetching(v) == old(self).fetching(v));
                    assert(self.in_flight@ == mid.in_flight@);
                    assert(self.fetching(v) == in_flight_in(mid.in_flight@, v));
                }
                }
                return true;
            }
            k += 1;
        }
        if self.entries.len() < self.capacity {
            let e = QuoteEntry { stock_symbol: stock_symbol.clone(), price };
            proof {
                lemma_entry_push(e0, e);
            }
            self.entries.push(e);
            proof {
                assert(self.entries@ == e0.push(e));
                assert forall|i: int|
                    0 <= i < self.entries@.len() implies #[trigger] self.entries@[i].price >= 1 by {
                    if i < e0.len() {
                        assert(self.entries@[i] == e0[i]);
                    } else {
                        assert(self.entries@[i] == e);
                    }
                }
                assert forall|v: Seq<char>|
                    v != stock_symbol@ implies self.fetching(v) == old(self).fetching(v) by {
                    assert(mid.fetching(v) == old(self).fetching(v));
                    assert(self.in_flight@ == mid.in_flight@);
                    assert(self.fetching(v) == in_flight_in(mid.in_flight@, v));
                }
            }
            true
        } else if self.capacity > 0 {
            // the map is full and the symbol is new: the oldest entry leaves
            let ghost evicted = e0[0];
            proof {
                lemma_entry_remove(e0, 0);
            }
            self.entries.remove(0);
            let e = QuoteEntry { stock_symbol: stock_symbol.clone(), price };
            proof {
                assert(!has_entry_in(e0.remove(0), e.stock_symbol@)) by {
                    if has_entry_in(e0.remove(0), e.stock_symbol@) {
                        assert(has_entry_in(e0, e.stock_symbol@));
                    }
                }
                lemma_entry_push(e0.remove(0), e);
            }
            self.entries.push(e);
            proof {
                assert(self.entries@ == e0.remove(0).push(e));
                e0.remove_ensures(0);
                assert forall|i: int|
                    0 <= i < self.entries@.len() implies #[trigger] self.entries@[i].price >= 1 by {
                    if i < e0.len() - 1 {
                        assert(self.entries@[i] == e0.remove(0)[i]);
                        assert(e0.remove(0)[i] == e0[i + 1]);
                    } else {
                        assert(self.entries@[i] == e);
                    }
                }
                assert forall|v: Seq<char>|
                    v != stock_symbol@ implies price_in(self.entries@, v) == (if v
                    == evicted.stock_symbol@ {
                    None::<u64>
                } else {
                    price_in(e0, v)
                }) by {
                    assert(price_in(e0.remove(0).push(e), v) == price_in(e0.remove(0), v));
                    if v == evicted.stock_symbol@ {
                        assert(!has_entry_in(e0.remove(0), v));
                    }
                }
                assert forall|v: Seq<char>|
                    v != stock_symbol@ implies self.fetching(v) == old(self).fetching(v) by {
                    assert(mid.fetching(v) == old(self).fetching(v));
                    assert(self.in_flight@ == mid.in_flight@);
                    assert(self.fetching(v) == in_flight_in(mid.in_flight@, v));
                }
            }
            true
        } else {
            false
        }
    }

    /// Record a failed fetch: the flight ends, nothing is cached, and every
    /// waiter sees the failure.
    pub fn fail_fetch(&mut self, stock_symbol: &String)
        requires
            old(self).wf(),
        ensures
            final(self).wf(),
            !final(self).fetching(stock_symbol@),
            forall|v: Seq<char>|
                v != stock_symbol@ ==> final(self).fetching(v) == old(self).fetching(v),
            final(self).entries@ == old(self).entries@,
            final(self).capacity == old(self).capacity,
    {
        self.remove_flight(stock_symbol);
    }

    /// Read the cached price of a symbol without touching the flights.
    pub fn cached_price(&self, stock_symbol: &String) -> (r: Option<u64>)
        requires
            self.wf(),
        ensures
            r == self.price_of(stock_symbol@),
    {
        let mut k: usize = 0;
        while k < self.entries.len()
            invariant
                k <= self.entries@.len(),
                entries_unique(self.entries@),
                forall|j: int| 0 <= j < k ==> self.entries@[j].stock_symbol@ != stock_symbol@,
            decreases self.entries@.len() - k,
        {
            if self.entries[k].stock_symbol == *stock_symbol {
                proof {
                    let i = entry_index_in(self.entries@, stock_symbol@);
                    assert(self.entries@[i].stock_symbol@ == stock_symbol@);
                    assert(i == k as int);
                }
                return Some(self.entries[k].price);
            }
            k += 1;
        }
        None
    }

    /// The cached quotes, for a listing of all known stocks.
    pub fn stocks(&self) -> (r: &Vec<QuoteEntry>)
        ensures
            r@ == self.entries@,
    {
        &self.entries
    }

    /// Remove every flight of the symbol (at most one exists).
    fn remove_flight(&mut self, stock_symbol: &String)
        requires
            old(self).wf(),
        ensures
            final(self).wf(),
            !final(self).fetching(stock_symbol@),
            forall|v: Seq<char>|
                v != stock_symbol@ ==> final(self).fetching(v) == old(self).fetching(v),
            final(self).entries@ == old(self).entries@,
            final(self).capacity == old(self).capacity,
    {
        let mut f: usize = 0;
        while f < self.in_flight.len()
            invariant
                *self == *old(self),
                old(self).wf(),
                f <= self.in_flight@.len(),
                flights_unique(self.in_flight@),
                forall|j: int| 0 <= j < f ==> self.in_flight@[j]@ != stock_symbol@,
            decreases self.in_flight@.len() - f,
        {
            if self.in_flight[f] == *stock_symbol {
                let ghost fl0 = self.in_flight@;
                self.in_flight.remove(f);
                proof {
                    fl0.remove_ensures(f as int);
                    let fl1 = fl0.remove(f as int);
                    assert(self.in_flight@ == fl1);
                    assert forall|a: int, b: int|
                        0 <= a < fl1.len() && 0 <= b < fl1.len() && a != b implies fl1[a]@
                        != fl1[b]@ by {
                        let a0 = if a < f { a } else { a + 1 };
                        let b0 = if b < f { b } else { b + 1 };
                        assert(fl1[a] == fl0[a0] && fl1[b] == fl0[b0]);
                    }
                    assert(!in_flight_in(fl1, stock_symbol@)) by {
                        if in_flight_in(fl1, stock_symbol@) {
                            let j = choose|j: int| 0 <= j < fl1.len() && fl1[j]@ == stock_symbol@;
                            let j0 = if j < f { j } else { j + 1 };
                            assert(fl1[j] == fl0[j0]);
                            assert(j0 != f);
                        }
                    }
                    assert forall|v: Seq<char>|
                        v != stock_symbol@ implies in_flight_in(fl1, v) == in_flight_in(
                        fl0,
                        v,
                    ) by {
                        if in_flight_in(fl1, v) {
                            let j = choose|j: int| 0 <= j < fl1.len() && fl1[j]@ == v;
                            let j0 = if j < f { j } else { j + 1 };
                            assert(fl1[j] == fl0[j0]);
                        }
                        if in_flight_in(fl0, v) {
                            let j = choose|j: int| 0 <= j < fl0.len() && fl0[j]@ == v;
                            assert(j != f);
                            let j1 = if j < f { j } else { j - 1 };
                            assert(fl1[j1] == fl0[j]);
                        }
                    }
                }
                return ;
            }
            f += 1;
        }
    }
}

/// With unique symbols, refreshing the entry at `i` changes exactly its key.
proof fn lemma_entry_update(s: Seq<QuoteEntry>, i: int, e: QuoteEntry)
    requires
        entries_unique(s),
        0 <= i < s.len(),
        e.stock_symbol@ == s[i].stock_symbol@,
    ensures
        entries_unique(s.update(i, e)),
        price_in(s.update(i, e), e.stock_symbol@) == Some(e.price),
        forall|v: Seq<char>|
            v != e.stock_symbol@ ==> price_in(s.update(i, e), v) == price_in(s, v),
        forall|v: Seq<char>| has_entry_in(s.update(i, e), v) == has_entry_in(s, v),
{
    let s2 = s.update(i, e);
    assert forall|v: Seq<char>| has_entry_in(s2, v) == has_entry_in(s, v) by {
        if has_entry_in(s2, v) {
            let j = choose|j: int| 0 <= j < s2.len() && s2[j].stock_symbol@ == v;
            assert(s[j].stock_symbol@ == v);
        }
        if has_entry_in(s, v) {
            let j = choose|j: int| 0 <= j < s.len() && s[j].stock_symbol@ == v;
            assert(s2[j].stock_symbol@ == v);
        }
    }
    assert(has_entry_in(s2, e.stock_symbol@));
    let i2 = entry_index_in(s2, e.stock_symbol@);
    assert(0 <= i2 < s2.len() && s2[i2].stock_symbol@ == e.stock_symbol@);
    assert(i2 == i);
    assert forall|v: Seq<char>| v != e.stock_symbol@ implies price_in(s2, v) == price_in(s, v) by {
        if has_entry_in(s, v) {
            let j = entry_index_in(s, v);
            assert(j != i);
            assert(s2[j].stock_symbol@ == v);
            let j2 = entry_index_in(s2, v);
            assert(0 <= j2 < s2.len() && s2[j2].stock_symbol@ == v);
            assert(j2 == j);
        }
    }
}

/// Removing the entry at `i` removes exactly its symbol.
proof fn lemma_entry_remove(s: Seq<QuoteEntry>, i: int)
    requires
        entries_unique(s),
        0 <= i < s.len(),
    ensures
        entries_unique(s.remove(i)),
        !has_entry_in(s.remove(i), s[i].stock_symbol@),
        forall|v: Seq<char>|
            v != s[i].stock_symbol@ ==> price_in(s.remove(i), v) == price_in(s, v),
        forall|v: Seq<char>| has_entry_in(s.remove(i), v) ==> has_entry_in(s, v),
{
    let s2 = s.remove(i);
    s.remove_ensures(i);
    assert forall|a: int, b: int|
        0 <= a < s2.len() && 0 <= b < s2.len() && a != b implies s2[a].stock_symbol@
        != s2[b].stock_symbol@ by {
        let a0 = if a < i { a } else { a + 1 };
        let b0 = if b < i { b } else { b + 1 };
        assert(s2[a] == s[a0] && s2[b] == s[b0]);
    }
    assert forall|v: Seq<char>| has_entry_in(s2, v) implies v != s[i].stock_symbol@
        && has_entry_in(s, v) by {
        let j = choose|j: int| 0 <= j < s2.len() && s2[j].stock_symbol@ == v;
        let j0 = if j < i { j } else { j + 1 };
        assert(s2[j] == s[j0]);
        assert(j0 != i);
    }
    assert forall|v: Seq<char>|
        v != s[i].stock_symbol@ && has_entry_in(s, v) implies has_entry_in(s2, v) && price_in(
        s2,
        v,
    ) == price_in(s, v) by {
        let j = entry_index_in(s, v);
        assert(0 <= j < s.len() && s[j].stock_symbol@ == v);
        assert(j != i);
        let j2 = if j < i { j } else { j - 1 };
        assert(s2[j2] == s[j]);
        let j3 = entry_index_in(s2, v);
        assert(0 <= j3 < s2.len() && s2[j3].stock_symbol@ == v);
        assert(j3 == j2);
    }
}

/// Appending an entry with a fresh symbol adds exactly that symbol.
proof fn lemma_entry_push(s: Seq<QuoteEntry>, e: QuoteEntry)
    requires
        entries_unique(s),
        !has_entry_in(s, e.stock_symbol@),
    ensures
        entries_unique(s.push(e)),
        price_in(s.push(e), e.stock_symbol@) == Some(e.price),
        forall|v: Seq<char>| v != e.stock_symbol@ ==> price_in(s.push(e), v) == price_in(s, v),
{
    let s2 = s.push(e);
    assert(s2[s.len() as int] == e);
    assert forall|i: int, j: int|
        0 <= i < s2.len() && 0 <= j < s2.len() && i != j implies s2[i].stock_symbol@
        != s2[j].stock_symbol@ by {
        if i < s.len() && j < s.len() {
            assert(s2[i] == s[i] && s2[j] == s[j]);
        } else if i < s.len() {
            assert(s2[j] == e && s2[i] == s[i]);
            assert(has_entry_in(s, s[i].stock_symbol@));
        } else {
            assert(s2[i] == e && s2[j] == s[j]);
            assert(has_entry_in(s, s[j].stock_symbol@));
        }
    }
    assert(has_entry_in(s2, e.stock_symbol@));
    let i2 = entry_index_in(s2, e.stock_symbol@);
    assert(0 <= i2 < s2.len() && s2[i2].stock_symbol@ == e.stock_symbol@);
    assert(i2 == s.len());
    assert forall|v: Seq<char>| v != e.stock_symbol@ implies price_in(s2, v) == price_in(s, v) by {
        if has_entry_in(s, v) {
            let j = entry_index_in(s, v);
            assert(s2[j] == s[j]);
            let j2 = entry_index_in(s2, v);
            assert(0 <= j2 < s2.len() && s2[j2].stock_symbol@ == v);
            assert(j2 == j);
        } else if has_entry_in(s2, v) {
            let j = choose|j: int| 0 <= j < s2.len() && s2[j].stock_symbol@ == v;
            assert(j != s.len());
            assert(s[j].stock_symbol@ == v);
        }
    }
}

/// Single-flight: once a lookup has made one caller the fetcher of a
/// symbol, every further lookup of that symbol before the fetch completes
/// is told to wait (or served from the cache), never to fetch again — so a
/// cold symbol costs exactly one call to the pricing collaborator.
pub proof fn lemma_single_flight(
    c0: QuoteCache,
    c1: QuoteCache,
    c2: QuoteCache,
    sym: Seq<char>,
    r1: CacheLookup,
    r2: CacheLookup,
)
    requires
        lookup_post(c0, c1, sym, r1),
        r1 == CacheLookup::MustFetch,
        lookup_post(c1, c2, sym, r2),
    ensures
        r2 == CacheLookup::AwaitInFlight,
        c2 == c1,
{
}

} // verus!
