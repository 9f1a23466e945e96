//! The ledger store: accounts, stock holdings, queued orders and standing
//! triggers, together with the keyed-lookup model that every engine
//! operation's contract is stated over.
//!
//! Each collection behaves as a map: accounts and queued orders are keyed by
//! user id, holdings and standing orders by the pair of owner and stock
//! symbol. Well-formedness (`Ledger::wf`) says the keys are unique and every
//! queued order carries a positive quoted price.

use vstd::prelude::*;

verus! {

/// Saturating 64-bit addition, the arithmetic model of every cash or share
/// credit: a credit that would exceed the representable range stops at the
/// cap instead of wrapping.
pub open spec fn sat_add64(a: u64, b: u64) -> u64 {
    if a + b > u64::MAX {
        u64::MAX
    } else {
        (a + b) as u64
    }
}

/// Saturating 64-bit multiplication, used when a sell trigger turns a share
/// amount into cash at the update price.
pub open spec fn sat_mul64(a: u64, b: u64) -> u64 {
    if a * b > u64::MAX {
        u64::MAX
    } else {
        (a * b) as u64
    }
}

/// A trader's account: unique user id and a non-negative cash balance in
/// cents.
#[derive(Debug, Clone, PartialEq, Eq)]
pub struct Account {
    pub user_id: String,
    pub balance: u64,
}

/// A stock position: non-negative whole shares of one symbol held by one
/// owner; the pair of owner and symbol is unique.
#[derive(Debug, Clone, PartialEq, Eq)]
pub struct Holding {
    pub owner_id: String,
    pub stock_symbol: String,
    pub amount: u64,
}

/// A queued buy or sell awaiting commit or cancel. At most one exists per
/// user and kind; the reserved value is `amount_dollars` cents (for a sell,
/// the shares `amount_dollars / quoted_price` were reserved instead).
#[derive(Debug, Clone, PartialEq, Eq)]
pub struct QueuedOrder {
    pub user_id: String,
    pub stock_symbol: String,
    pub quoted_price: u64,
    pub amount_dollars: u64,
    pub time_created: u64,
}

impl QueuedOrder {
    /// The share amount a queued order stands for at its quoted price.
    pub open spec fn spec_shares(self) -> u64 {
        (self.amount_dollars / self.quoted_price) as u64
    }
}

/// A standing conditional order. For a buy trigger `amount` is reserved
/// cents; for a sell trigger it is reserved shares. A standing order with no
/// `trigger_price` is armed but not yet actionable.
#[derive(Debug, Clone, PartialEq, Eq)]
pub struct StandingOrder {
    pub owner_id: String,
    pub stock_symbol: String,
    pub amount: u64,
    pub trigger_price: Option<u64>,
}

/// The shared state every engine operation reads and writes. All mutation
/// goes through operations that preserve `wf` and behave as atomic
/// transactions: a failed precondition leaves the ledger unchanged.
pub struct Ledger {
    pub accounts: Vec<Account>,
    pub holdings: Vec<Holding>,
    pub queued_buys: Vec<QueuedOrder>,
    pub queued_sells: Vec<QueuedOrder>,
    pub buy_triggers: Vec<StandingOrder>,
    pub sell_triggers: Vec<StandingOrder>,
}

impl Ledger {
    /// Well-formedness: every collection is keyed uniquely and stored quoted
    /// prices are positive.
    pub open spec fn wf(self) -> bool {
        &&& accounts_unique(self.accounts@)
        &&& holdings_unique(self.holdings@)
        &&& orders_unique(self.queued_buys@)
        &&& orders_unique(self.queued_sells@)
        &&& standings_unique(self.buy_triggers@)
        &&& standings_unique(self.sell_triggers@)
        &&& orders_priced(self.queued_buys@)
        &&& orders_priced(self.queued_sells@)
    }

    /// The cash balance of a user, in cents.
    pub open spec fn balance_of(self, u: Seq<char>) -> Option<u64> {
        balance_in(self.accounts@, u)
    }

    /// The shares of `sym` held by `u`.
    pub open spec fn holding_of(self, u: Seq<char>, sym: Seq<char>) -> Option<u64> {
        holding_in(self.holdings@, u, sym)
    }

    /// The pending buy of a user.
    pub open spec fn queued_buy_of(self, u: Seq<char>) -> Option<QueuedOrder> {
        order_in(self.queued_buys@, u)
    }

    /// The pending sell of a user.
    pub open spec fn queued_sell_of(self, u: Seq<char>) -> Option<QueuedOrder> {
        order_in(self.queued_sells@, u)
    }

    /// The standing buy order of `u` on `sym`.
    pub open spec fn buy_trigger_of(self, u: Seq<char>, sym: Seq<char>) -> Option<StandingOrder> {
        standing_in(self.buy_triggers@, u, sym)
    }

    /// The standing sell order of `u` on `sym`.
    pub open spec fn sell_trigger_of(self, u: Seq<char>, sym: Seq<char>) -> Option<StandingOrder> {
        standing_in(self.sell_triggers@, u, sym)
    }

    /// An empty ledger: no accounts, no positions, nothing pending.
    pub fn new() -> (r: Ledger)
        ensures
            r.wf(),
            r.accounts@ =~= Seq::<Account>::empty(),
            r.holdings@ =~= Seq::<Holding>::empty(),
            r.queued_buys@ =~= Seq::<QueuedOrder>::empty(),
            r.queued_sells@ =~= Seq::<QueuedOrder>::empty(),
            r.buy_triggers@ =~= Seq::<StandingOrder>::empty(),
            r.sell_triggers@ =~= Seq::<StandingOrder>::empty(),
    {
        Ledger {
            accounts: Vec::new(),
            holdings: Vec::new(),
            queued_buys: Vec::new(),
            queued_sells: Vec::new(),
            buy_triggers: Vec::new(),
            sell_triggers: Vec::new(),
        }
    }

    /// Read a user's balance; `None` when the user has no account.
    pub fn balance(&self, user: &String) -> (r: Option<u64>)
        requires
            self.wf(),
        ensures
            r == self.balance_of(user@),
    {
        match acct_find(&self.accounts, user) {
            Some(i) => {
                proof { lemma_account_at(self.accounts@, i as int) }
                Some(self.accounts[i].balance)
            },
            None => None,
        }
    }

    /// Read the shares of `sym` held by `user`; `None` when no holding row
    /// exists.
    pub fn holding(&self, user: &String, sym: &String) -> (r: Option<u64>)
        requires
            self.wf(),
        ensures
            r == self.holding_of(user@, sym@),
    {
        match holding_find(&self.holdings, user, sym) {
            Some(i) => {
                proof { lemma_holding_at(self.holdings@, i as int) }
                Some(self.holdings[i].amount)
            },
            None => None,
        }
    }

    /// Read a user's pending buy.
    pub fn queued_buy(&self, user: &String) -> (r: Option<&QueuedOrder>)
        requires
            self.wf(),
        ensures
            match r {
                Some(o) => self.queued_buy_of(user@) == Some(*o),
                None => self.queued_buy_of(user@) is None,
            },
    {
        order_get(&self.queued_buys, user)
    }

    /// Read a user's pending sell.
    pub fn queued_sell(&self, user: &String) -> (r: Option<&QueuedOrder>)
        requires
            self.wf(),
        ensures
            match r {
                Some(o) => self.queued_sell_of(user@) == Some(*o),
                None => self.queued_sell_of(user@) is None,
            },
    {
        order_get(&self.queued_sells, user)
    }

    /// Read the standing buy order of `user` on `sym`.
    pub fn buy_trigger(&self, user: &String, sym: &String) -> (r: Option<&StandingOrder>)
        requires
            self.wf(),
        ensures
            match r {
                Some(t) => self.buy_trigger_of(user@, sym@) == Some(*t),
                None => self.buy_trigger_of(user@, sym@) is None,
            },
    {
        standing_get(&self.buy_triggers, user, sym)
    }

    /// Read the standing sell order of `user` on `sym`.
    pub fn sell_trigger(&self, user: &String, sym: &String) -> (r: Option<&StandingOrder>)
        requires
            self.wf(),
        ensures
            match r {
                Some(t) => self.sell_trigger_of(user@, sym@) == Some(*t),
                None => self.sell_trigger_of(user@, sym@) is None,
            },
    {
        standing_get(&self.sell_triggers, user, sym)
    }

    /// Whether the user has an account, which is what a login checks.
    pub fn login(&self, user: &String) -> (r: bool)
        requires
            self.wf(),
        ensures
            r == (self.balance_of(user@) is Some),
    {
        self.balance(user).is_some()
    }
}

// ---------------------------------------------------------------------------
// Keyed lookup model: accounts, keyed by user id.
// ---------------------------------------------------------------------------

pub open spec fn accounts_unique(s: Seq<Account>) -> bool {
    forall|i: int, j: int|
        0 <= i < s.len() && 0 <= j < s.len() && i != j ==> s[i].user_id@ != s[j].user_id@
}

pub open spec fn has_account_in(s: Seq<Account>, u: Seq<char>) -> bool {
    exists|i: int| 0 <= i < s.len() && s[i].user_id@ == u
}

pub open spec fn account_index_in(s: Seq<Account>, u: Seq<char>) -> int {
    choose|i: int| 0 <= i < s.len() && s[i].user_id@ == u
}

/// The balance of user `u` in the account list `s`, or `None` if no account
/// exists.
pub open spec fn balance_in(s: Seq<Account>, u: Seq<char>) -> Option<u64> {
    if has_account_in(s, u) {
        Some(s[account_index_in(s, u)].balance)
    } else {
        None
    }
}

/// With unique keys, the element at `i` is what lookup by its key returns.
pub proof fn lemma_account_at(s: Seq<Account>, i: int)
    requires
        accounts_unique(s),
        0 <= i < s.len(),
    ensures
        has_account_in(s, s[i].user_id@),
        account_index_in(s, s[i].user_id@) == i,
        balance_in(s, s[i].user_id@) == Some(s[i].balance),
{
    assert(has_account_in(s, s[i].user_id@));
    let j = account_index_in(s, s[i].user_id@);
    assert(0 <= j < s.len() && s[j].user_id@ == s[i].user_id@);
}

/// Replacing the element at `i` by one with the same key changes exactly
/// that key's balance.
pub proof fn lemma_account_update(s: Seq<Account>, i: int, a: Account)
    requires
        accounts_unique(s),
        0 <= i < s.len(),
        a.user_id@ == s[i].user_id@,
    ensures
        accounts_unique(s.update(i, a)),
        balance_in(s.update(i, a), a.user_id@) == Some(a.balance),
        forall|v: Seq<char>|
            v != a.user_id@ ==> balance_in(s.update(i, a), v) == balance_in(s, v),
        forall|v: Seq<char>| has_account_in(s.update(i, a), v) == has_account_in(s, v),
{
    let s2 = s.update(i, a);
    assert forall|v: Seq<char>| has_account_in(s2, v) == has_account_in(s, v) by {
        if has_account_in(s2, v) {
            let j = choose|j: int| 0 <= j < s2.len() && s2[j].user_id@ == v;
            assert(s[j].user_id@ == v);
        }
        if has_account_in(s, v) {
            let j = choose|j: int| 0 <= j < s.len() && s[j].user_id@ == v;
            assert(s2[j].user_id@ == v);
        }
    }
    lemma_account_at(s2, i);
    assert forall|v: Seq<char>|
        v != a.user_id@ implies balance_in(s2, v) == balance_in(s, v) by {
        if has_account_in(s, v) {
            let j = account_index_in(s, v);
            assert(j != i);
            assert(s2[j].user_id@ == v);
            lemma_account_at(s2, j);
            lemma_account_at(s, j);
        }
    }
}

/// Appending an account with a fresh key adds exactly that key.
pub proof fn lemma_account_push(s: Seq<Account>, a: Account)
    requires
        accounts_unique(s),
        !has_account_in(s, a.user_id@),
    ensures
        accounts_unique(s.push(a)),
        balance_in(s.push(a), a.user_id@) == Some(a.balance),
        forall|v: Seq<char>|
            v != a.user_id@ ==> balance_in(s.push(a), v) == balance_in(s, v),
        forall|v: Seq<char>|
            v != a.user_id@ ==> has_account_in(s.push(a), v) == has_account_in(s, v),
        has_account_in(s.push(a), a.user_id@),
{
    let s2 = s.push(a);
    assert(s2[s.len() as int] == a);
    assert forall|i: int, j: int|
        0 <= i < s2.len() && 0 <= j < s2.len() && i != j implies s2[i].user_id@
        != s2[j].user_id@ by {
        if i < s.len() && j < s.len() {
            assert(s2[i] == s[i] && s2[j] == s[j]);
        } else if i < s.len() {
            assert(s2[j] == a && s2[i] == s[i]);
            assert(has_account_in(s, s[i].user_id@)) by { lemma_account_at(s, i) }
        } else {
            assert(s2[i] == a && s2[j] == s[j]);
            assert(has_account_in(s, s[j].user_id@)) by { lemma_account_at(s, j) }
        }
    }
    lemma_account_at(s2, s.len() as int);
    assert forall|v: Seq<char>|
        v != a.user_id@ implies balance_in(s2, v) == balance_in(s, v)
            && has_account_in(s2, v) == has_account_in(s, v) by {
        if has_account_in(s, v) {
            let j = account_index_in(s, v);
            assert(s2[j].user_id@ == v);
            lemma_account_at(s2, j);
            lemma_account_at(s, j);
        } else if has_account_in(s2, v) {
            let j = choose|j: int| 0 <= j < s2.len() && s2[j].user_id@ == v;
            assert(j != s.len());
            assert(s[j].user_id@ == v);
        }
    }
}

// ---------------------------------------------------------------------------
// Keyed lookup model: queued orders, keyed by user id.
// ---------------------------------------------------------------------------

pub open spec fn orders_unique(s: Seq<QueuedOrder>) -> bool {
    forall|i: int, j: int|
        0 <= i < s.len() && 0 <= j < s.len() && i != j ==> s[i].user_id@ != s[j].user_id@
}

pub open spec fn has_order_in(s: Seq<QueuedOrder>, u: Seq<char>) -> bool {
    exists|i: int| 0 <= i < s.len() && s[i].user_id@ == u
}

pub open spec fn order_index_in(s: Seq<QueuedOrder>, u: Seq<char>) -> int {
    choose|i: int| 0 <= i < s.len() && s[i].user_id@ == u
}

/// The queued order of user `u`, or `None` if the user has none pending.
pub open spec fn order_in(s: Seq<QueuedOrder>, u: Seq<char>) -> Option<QueuedOrder> {
    if has_order_in(s, u) {
        Some(s[order_index_in(s, u)])
    } else {
        None
    }
}

/// Every stored quoted price is positive, so share amounts are well defined.
pub open spec fn orders_priced(s: Seq<QueuedOrder>) -> bool {
    forall|i: int| 0 <= i < s.len() ==> #[trigger] s[i].quoted_price >= 1
}

pub proof fn lemma_order_at(s: Seq<QueuedOrder>, i: int)
    requires
        orders_unique(s),
        0 <= i < s.len(),
    ensures
        has_order_in(s, s[i].user_id@),
        order_index_in(s, s[i].user_id@) == i,
        order_in(s, s[i].user_id@) == Some(s[i]),
{
    assert(has_order_in(s, s[i].user_id@));
    let j = order_index_in(s, s[i].user_id@);
    assert(0 <= j < s.len() && s[j].user_id@ == s[i].user_id@);
}

/// Removing the element at `i` removes exactly its key.
pub proof fn lemma_order_remove(s: Seq<QueuedOrder>, i: int)
    requires
        orders_unique(s),
        0 <= i < s.len(),
    ensures
        orders_unique(s.remove(i)),
        !has_order_in(s.remove(i), s[i].user_id@),
        forall|v: Seq<char>|
            v != s[i].user_id@ ==> order_in(s.remove(i), v) == order_in(s, v),
        forall|v: Seq<char>|
            v != s[i].user_id@ ==> has_order_in(s.remove(i), v) == has_order_in(s, v),
        orders_priced(s) ==> orders_priced(s.remove(i)),
{
    let s2 = s.remove(i);
    s.remove_ensures(i);
    assert forall|a: int, b: int|
        0 <= a < s2.len() && 0 <= b < s2.len() && a != b implies s2[a].user_id@
        != s2[b].user_id@ by {
        let a0 = if a < i { a } else { a + 1 };
        let b0 = if b < i { b } else { b + 1 };
        assert(s2[a] == s[a0] && s2[b] == s[b0]);
    }
    assert forall|v: Seq<char>| has_order_in(s2, v) implies v != s[i].user_id@
        && has_order_in(s, v) by {
        let j = choose|j: int| 0 <= j < s2.len() && s2[j].user_id@ == v;
        let j0 = if j < i { j } else { j + 1 };
        assert(s2[j] == s[j0]);
        assert(j0 != i);
    }
    assert forall|v: Seq<char>|
        v != s[i].user_id@ && has_order_in(s, v) implies has_order_in(s2, v)
            && order_in(s2, v) == order_in(s, v) by {
        let j = order_index_in(s, v);
        assert(0 <= j < s.len() && s[j].user_id@ == v);
        assert(j != i);
        let j2 = if j < i { j } else { j - 1 };
        assert(s2[j2] == s[j]);
        lemma_order_at(s2, j2);
        lemma_order_at(s, j);
    }
    if orders_priced(s) {
        assert forall|a: int| 0 <= a < s2.len() implies #[trigger] s2[a].quoted_price >= 1 by {
            let a0 = if a < i { a } else { a + 1 };
            assert(s2[a] == s[a0]);
        }
    }
}

/// Appending an order with a fresh key adds exactly that key.
pub proof fn lemma_order_push(s: Seq<QueuedOrder>, o: QueuedOrder)
    requires
        orders_unique(s),
        !has_order_in(s, o.user_id@),
    ensures
        orders_unique(s.push(o)),
        order_in(s.push(o), o.user_id@) == Some(o),
        forall|v: Seq<char>| v != o.user_id@ ==> order_in(s.push(o), v) == order_in(s, v),
        forall|v: Seq<char>|
            v != o.user_id@ ==> has_order_in(s.push(o), v) == has_order_in(s, v),
        orders_priced(s) && o.quoted_price >= 1 ==> orders_priced(s.push(o)),
{
    let s2 = s.push(o);
    assert(s2[s.len() as int] == o);
    assert forall|i: int, j: int|
        0 <= i < s2.len() && 0 <= j < s2.len() && i != j implies s2[i].user_id@
        != s2[j].user_id@ by {
        if i < s.len() && j < s.len() {
            assert(s2[i] == s[i] && s2[j] == s[j]);
        } else if i < s.len() {
            assert(s2[j] == o && s2[i] == s[i]);
            assert(has_order_in(s, s[i].user_id@)) by { lemma_order_at(s, i) }
        } else {
            assert(s2[i] == o && s2[j] == s[j]);
            assert(has_order_in(s, s[j].user_id@)) by { lemma_order_at(s, j) }
        }
    }
    lemma_order_at(s2, s.len() as int);
    assert forall|v: Seq<char>|
        v != o.user_id@ implies order_in(s2, v) == order_in(s, v) && has_order_in(s2, v)
            == has_order_in(s, v) by {
        if has_order_in(s, v) {
            let j = order_index_in(s, v);
            assert(s2[j] == s[j]);
            lemma_order_at(s2, j);
            lemma_order_at(s, j);
        } else if has_order_in(s2, v) {
            let j = choose|j: int| 0 <= j < s2.len() && s2[j].user_id@ == v;
            assert(j != s.len());
            assert(s[j].user_id@ == v);
        }
    }
    if orders_priced(s) && o.quoted_price >= 1 {
        assert forall|a: int| 0 <= a < s2.len() implies #[trigger] s2[a].quoted_price >= 1 by {
            if a < s.len() {
                assert(s2[a] == s[a]);
            }
        }
    }
}

// ---------------------------------------------------------------------------
// Keyed lookup model: holdings, keyed by owner and stock symbol.
// ---------------------------------------------------------------------------

pub open spec fn holdings_unique(s: Seq<Holding>) -> bool {
    forall|i: int, j: int|
        0 <= i < s.len() && 0 <= j < s.len() && i != j ==> !(s[i].owner_id@ == s[j].owner_id@
            && s[i].stock_symbol@ == s[j].stock_symbol@)
}

pub open spec fn has_holding_in(s: Seq<Holding>, u: Seq<char>, sym: Seq<char>) -> bool {
    exists|i: int| 0 <= i < s.len() && s[i].owner_id@ == u && s[i].stock_symbol@ == sym
}

pub open spec fn holding_index_in(s: Seq<Holding>, u: Seq<char>, sym: Seq<char>) -> int {
    choose|i: int| 0 <= i < s.len() && s[i].owner_id@ == u && s[i].stock_symbol@ == sym
}

/// The share amount user `u` holds of `sym`, or `None` if no holding row
/// exists. A row holding zero shares is distinct from no row at all.
pub open spec fn holding_in(s: Seq<Holding>, u: Seq<char>, sym: Seq<char>) -> Option<u64> {
    if has_holding_in(s, u, sym) {
        Some(s[holding_index_in(s, u, sym)].amount)
    } else {
        None
    }
}

pub proof fn lemma_holding_at(s: Seq<Holding>, i: int)
    requires
        holdings_unique(s),
        0 <= i < s.len(),
    ensures
        has_holding_in(s, s[i].owner_id@, s[i].stock_symbol@),
        holding_index_in(s, s[i].owner_id@, s[i].stock_symbol@) == i,
        holding_in(s, s[i].owner_id@, s[i].stock_symbol@) == Some(s[i].amount),
{
    assert(has_holding_in(s, s[i].owner_id@, s[i].stock_symbol@));
    let j = holding_index_in(s, s[i].owner_id@, s[i].stock_symbol@);
    assert(0 <= j < s.len() && s[j].owner_id@ == s[i].owner_id@ && s[j].stock_symbol@
        == s[i].stock_symbol@);
}

pub proof fn lemma_holding_update(s: Seq<Holding>, i: int, h: Holding)
    requires
        holdings_unique(s),
        0 <= i < s.len(),
        h.owner_id@ == s[i].owner_id@,
        h.stock_symbol@ == s[i].stock_symbol@,
    ensures
        holdings_unique(s.update(i, h)),
        holding_in(s.update(i, h), h.owner_id@, h.stock_symbol@) == Some(h.amount),
        forall|v: Seq<char>, sy: Seq<char>|
            !(v == h.owner_id@ && sy == h.stock_symbol@) ==> holding_in(s.update(i, h), v, sy)
                == holding_in(s, v, sy),
        forall|v: Seq<char>, sy: Seq<char>|
            has_holding_in(s.update(i, h), v, sy) == has_holding_in(s, v, sy),
{
    let s2 = s.update(i, h);
    assert forall|v: Seq<char>, sy: Seq<char>|
        has_holding_in(s2, v, sy) == has_holding_in(s, v, sy) by {
        if has_holding_in(s2, v, sy) {
            let j = choose|j: int|
                0 <= j < s2.len() && s2[j].owner_id@ == v && s2[j].stock_symbol@ == sy;
            assert(s[j].owner_id@ == v && s[j].stock_symbol@ == sy);
        }
        if has_holding_in(s, v, sy) {
            let j = choose|j: int|
                0 <= j < s.len() && s[j].owner_id@ == v && s[j].stock_symbol@ == sy;
            assert(s2[j].owner_id@ == v && s2[j].stock_symbol@ == sy);
        }
    }
    lemma_holding_at(s2, i);
    assert forall|v: Seq<char>, sy: Seq<char>|
        !(v == h.owner_id@ && sy == h.stock_symbol@) implies holding_in(s2, v, sy) == holding_in(
        s,
        v,
        sy,
    ) by {
        if has_holding_in(s, v, sy) {
            let j = holding_index_in(s, v, sy);
            assert(j != i);
            assert(s2[j].owner_id@ == v && s2[j].stock_symbol@ == sy);
            lemma_holding_at(s2, j);
            lemma_holding_at(s, j);
        }
    }
}

pub proof fn lemma_holding_push(s: Seq<Holding>, h: Holding)
    requires
        holdings_unique(s),
        !has_holding_in(s, h.owner_id@, h.stock_symbol@),
    ensures
        holdings_unique(s.push(h)),
        holding_in(s.push(h), h.owner_id@, h.stock_symbol@) == Some(h.amount),
        forall|v: Seq<char>, sy: Seq<char>|
            !(v == h.owner_id@ && sy == h.stock_symbol@) ==> holding_in(s.push(h), v, sy)
                == holding_in(s, v, sy),
        forall|v: Seq<char>, sy: Seq<char>|
            !(v == h.owner_id@ && sy == h.stock_symbol@) ==> has_holding_in(s.push(h), v, sy)
                == has_holding_in(s, v, sy),
        has_holding_in(s.push(h), h.owner_id@, h.stock_symbol@),
{
    let s2 = s.push(h);
    assert(s2[s.len() as int] == h);
    assert forall|i: int, j: int|
        0 <= i < s2.len() && 0 <= j < s2.len() && i != j implies !(s2[i].owner_id@
        == s2[j].owner_id@ && s2[i].stock_symbol@ == s2[j].stock_symbol@) by {
        if i < s.len() && j < s.len() {
            assert(s2[i] == s[i] && s2[j] == s[j]);
        } else if i < s.len() {
            assert(s2[j] == h && s2[i] == s[i]);
            assert(has_holding_in(s, s[i].owner_id@, s[i].stock_symbol@)) by {
                lemma_holding_at(s, i)
            }
        } else {
            assert(s2[i] == h && s2[j] == s[j]);
            assert(has_holding_in(s, s[j].owner_id@, s[j].stock_symbol@)) by {
                lemma_holding_at(s, j)
            }
        }
    }
    lemma_holding_at(s2, s.len() as int);
    assert forall|v: Seq<char>, sy: Seq<char>|
        !(v == h.owner_id@ && sy == h.stock_symbol@) implies holding_in(s2, v, sy) == holding_in(
        s,
        v,
        sy,
    ) && has_holding_in(s2, v, sy) == has_holding_in(s, v, sy) by {
        if has_holding_in(s, v, sy) {
            let j = holding_index_in(s, v, sy);
            assert(s2[j] == s[j]);
            lemma_holding_at(s2, j);
            lemma_holding_at(s, j);
        } else if has_holding_in(s2, v, sy) {
            let j = choose|j: int|
                0 <= j < s2.len() && s2[j].owner_id@ == v && s2[j].stock_symbol@ == sy;
            assert(j != s.len());
            assert(s[j].owner_id@ == v && s[j].stock_symbol@ == sy);
        }
    }
}

// ---------------------------------------------------------------------------
// Keyed lookup model: standing orders, keyed by owner and stock symbol.
// ---------------------------------------------------------------------------

pub open spec fn standings_unique(s: Seq<StandingOrder>) -> bool {
    forall|i: int, j: int|
        0 <= i < s.len() && 0 <= j < s.len() && i != j ==> !(s[i].owner_id@ == s[j].owner_id@
            && s[i].stock_symbol@ == s[j].stock_symbol@)
}

pub open spec fn has_standing_in(s: Seq<StandingOrder>, u: Seq<char>, sym: Seq<char>) -> bool {
    exists|i: int| 0 <= i < s.len() && s[i].owner_id@ == u && s[i].stock_symbol@ == sym
}

pub open spec fn standing_index_in(s: Seq<StandingOrder>, u: Seq<char>, sym: Seq<char>) -> int {
    choose|i: int| 0 <= i < s.len() && s[i].owner_id@ == u && s[i].stock_symbol@ == sym
}

/// The standing order of `u` on `sym`, or `None` if there is none.
pub open spec fn standing_in(s: Seq<StandingOrder>, u: Seq<char>, sym: Seq<char>) -> Option<
    StandingOrder,
> {
    if has_standing_in(s, u, sym) {
        Some(s[standing_index_in(s, u, sym)])
    } else {
        None
    }
}

pub proof fn lemma_standing_at(s: Seq<StandingOrder>, i: int)
    requires
        standings_unique(s),
        0 <= i < s.len(),
    ensures
        has_standing_in(s, s[i].owner_id@, s[i].stock_symbol@),
        standing_index_in(s, s[i].owner_id@, s[i].stock_symbol@) == i,
        standing_in(s, s[i].owner_id@, s[i].stock_symbol@) == Some(s[i]),
{
    assert(has_standing_in(s, s[i].owner_id@, s[i].stock_symbol@));
    let j = standing_index_in(s, s[i].owner_id@, s[i].stock_symbol@);
    assert(0 <= j < s.len() && s[j].owner_id@ == s[i].owner_id@ && s[j].stock_symbol@
        == s[i].stock_symbol@);
}

pub proof fn lemma_standing_update(s: Seq<StandingOrder>, i: int, t: StandingOrder)
    requires
        standings_unique(s),
        0 <= i < s.len(),
        t.owner_id@ == s[i].owner_id@,
        t.stock_symbol@ == s[i].stock_symbol@,
    ensures
        standings_unique(s.update(i, t)),
        standing_in(s.update(i, t), t.owner_id@, t.stock_symbol@) == Some(t),
        forall|v: Seq<char>, sy: Seq<char>|
            !(v == t.owner_id@ && sy == t.stock_symbol@) ==> standing_in(s.update(i, t), v, sy)
                == standing_in(s, v, sy),
        forall|v: Seq<char>, sy: Seq<char>|
            has_standing_in(s.update(i, t), v, sy) == has_standing_in(s, v, sy),
{
    let s2 = s.update(i, t);
    assert forall|v: Seq<char>, sy: Seq<char>|
        has_standing_in(s2, v, sy) == has_standing_in(s, v, sy) by {
        if has_standing_in(s2, v, sy) {
            let j = choose|j: int|
                0 <= j < s2.len() && s2[j].owner_id@ == v && s2[j].stock_symbol@ == sy;
            assert(s[j].owner_id@ == v && s[j].stock_symbol@ == sy);
        }
        if has_standing_in(s, v, sy) {
            let j = choose|j: int|
                0 <= j < s.len() && s[j].owner_id@ == v && s[j].stock_symbol@ == sy;
            assert(s2[j].owner_id@ == v && s2[j].stock_symbol@ == sy);
        }
    }
    lemma_standing_at(s2, i);
    assert forall|v: Seq<char>, sy: Seq<char>|
        !(v == t.owner_id@ && sy == t.stock_symbol@) implies standing_in(s2, v, sy) == standing_in(
        s,
        v,
        sy,
    ) by {
        if has_standing_in(s, v, sy) {
            let j = standing_index_in(s, v, sy);
            assert(j != i);
            assert(s2[j].owner_id@ == v && s2[j].stock_symbol@ == sy);
            lemma_standing_at(s2, j);
            lemma_standing_at(s, j);
        }
    }
}

pub proof fn lemma_standing_push(s: Seq<StandingOrder>, t: StandingOrder)
    requires
        standings_unique(s),
        !has_standing_in(s, t.owner_id@, t.stock_symbol@),
    ensures
        standings_unique(s.push(t)),
        standing_in(s.push(t), t.owner_id@, t.stock_symbol@) == Some(t),
        forall|v: Seq<char>, sy: Seq<char>|
            !(v == t.owner_id@ && sy == t.stock_symbol@) ==> standing_in(s.push(t), v, sy)
                == standing_in(s, v, sy),
        forall|v: Seq<char>, sy: Seq<char>|
            !(v == t.owner_id@ && sy == t.stock_symbol@) ==> has_standing_in(s.push(t), v, sy)
                == has_standing_in(s, v, sy),
        has_standing_in(s.push(t), t.owner_id@, t.stock_symbol@),
{
    let s2 = s.push(t);
    assert(s2[s.len() as int] == t);
    assert forall|i: int, j: int|
        0 <= i < s2.len() && 0 <= j < s2.len() && i != j implies !(s2[i].owner_id@
        == s2[j].owner_id@ && s2[i].stock_symbol@ == s2[j].stock_symbol@) by {
        if i < s.len() && j < s.len() {
            assert(s2[i] == s[i] && s2[j] == s[j]);
        } else if i < s.len() {
            assert(s2[j] == t && s2[i] == s[i]);
            assert(has_standing_in(s, s[i].owner_id@, s[i].stock_symbol@)) by {
                lemma_standing_at(s, i)
            }
        } else {
            assert(s2[i] == t && s2[j] == s[j]);
            assert(has_standing_in(s, s[j].owner_id@, s[j].stock_symbol@)) by {
                lemma_standing_at(s, j)
            }
        }
    }
    lemma_standing_at(s2, s.len() as int);
    assert forall|v: Seq<char>, sy: Seq<char>|
        !(v == t.owner_id@ && sy == t.stock_symbol@) implies standing_in(s2, v, sy) == standing_in(
        s,
        v,
        sy,
    ) && has_standing_in(s2, v, sy) == has_standing_in(s, v, sy) by {
        if has_standing_in(s, v, sy) {
            let j = standing_index_in(s, v, sy);
            assert(s2[j] == s[j]);
            lemma_standing_at(s2, j);
            lemma_standing_at(s, j);
        } else if has_standing_in(s2, v, sy) {
            let j = choose|j: int|
                0 <= j < s2.len() && s2[j].owner_id@ == v && s2[j].stock_symbol@ == sy;
            assert(j != s.len());
            assert(s[j].owner_id@ == v && s[j].stock_symbol@ == sy);
        }
    }
}

pub proof fn lemma_standing_remove(s: Seq<StandingOrder>, i: int)
    requires
        standings_unique(s),
        0 <= i < s.len(),
    ensures
        standings_unique(s.remove(i)),
        !has_standing_in(s.remove(i), s[i].owner_id@, s[i].stock_symbol@),
        forall|v: Seq<char>, sy: Seq<char>|
            !(v == s[i].owner_id@ && sy == s[i].stock_symbol@) ==> standing_in(s.remove(i), v, sy)
                == standing_in(s, v, sy),
        forall|v: Seq<char>, sy: Seq<char>|
            !(v == s[i].owner_id@ && sy == s[i].stock_symbol@) ==> has_standing_in(
                s.remove(i),
                v,
                sy,
            ) == has_standing_in(s, v, sy),
{
    let s2 = s.remove(i);
    s.remove_ensures(i);
    assert forall|a: int, b: int|
        0 <= a < s2.len() && 0 <= b < s2.len() && a != b implies !(s2[a].owner_id@
        == s2[b].owner_id@ && s2[a].stock_symbol@ == s2[b].stock_symbol@) by {
        let a0 = if a < i { a } else { a + 1 };
        let b0 = if b < i { b } else { b + 1 };
        assert(s2[a] == s[a0] && s2[b] == s[b0]);
    }
    assert forall|v: Seq<char>, sy: Seq<char>|
        has_standing_in(s2, v, sy) implies !(v == s[i].owner_id@ && sy == s[i].stock_symbol@)
            && has_standing_in(s, v, sy) by {
        let j = choose|j: int| 0 <= j < s2.len() && s2[j].owner_id@ == v && s2[j].stock_symbol@ == sy;
        let j0 = if j < i { j } else { j + 1 };
        assert(s2[j] == s[j0]);
        assert(j0 != i);
    }
    assert forall|v: Seq<char>, sy: Seq<char>|
        !(v == s[i].owner_id@ && sy == s[i].stock_symbol@) && has_standing_in(s, v, sy) implies
        has_standing_in(s2, v, sy) && standing_in(s2, v, sy) == standing_in(s, v, sy) by {
        let j = standing_index_in(s, v, sy);
        assert(0 <= j < s.len() && s[j].owner_id@ == v && s[j].stock_symbol@ == sy);
        assert(j != i);
        let j2 = if j < i { j } else { j - 1 };
        assert(s2[j2] == s[j]);
        lemma_standing_at(s2, j2);
        lemma_standing_at(s, j);
    }
}

// ---------------------------------------------------------------------------
// Executable helpers: accounts.
// ---------------------------------------------------------------------------

/// Find the index of a user's account.
pub(crate) fn acct_find(s: &Vec<Account>, user: &String) -> (r: Option<usize>)
    ensures
        match r {
            Some(i) => i < s@.len() && s@[i as int].user_id@ == user@,
            None => !has_account_in(s@, user@),
        },
{
    let mut k: usize = 0;
    while k < s.len()
        invariant
            k <= s@.len(),
            forall|j: int| 0 <= j < k ==> s@[j].user_id@ != user@,
        decreases s@.len() - k,
    {
        if s[k].user_id == *user {
            return Some(k);
        }
        k += 1;
    }
    None
}

/// Credit a user's balance, saturating at the representable cap; reports
/// whether the account existed.
pub(crate) fn acct_credit(s: &mut Vec<Account>, user: &String, amount: u64) -> (r: bool)
    requires
        accounts_unique(old(s)@),
    ensures
        accounts_unique(final(s)@),
        r == has_account_in(old(s)@, user@),
        r ==> balance_in(final(s)@, user@) == Some(
            sat_add64(balance_in(old(s)@, user@)->Some_0, amount),
        ),
        !r ==> final(s)@ == old(s)@,
        forall|v: Seq<char>|
            v != user@ ==> balance_in(final(s)@, v) == balance_in(old(s)@, v),
        forall|v: Seq<char>| has_account_in(final(s)@, v) == has_account_in(old(s)@, v),
{
    match acct_find(s, user) {
        None => false,
        Some(i) => {
            proof { lemma_account_at(s@, i as int) }
            let nb = s[i].balance.saturating_add(amount);
            let a = Account { user_id: s[i].user_id.clone(), balance: nb };
            proof { lemma_account_update(s@, i as int, a) }
            s[i] = a;
            true
        },
    }
}

/// Credit a user's balance, creating the account if it does not exist yet.
pub(crate) fn acct_upsert_credit(s: &mut Vec<Account>, user: &String, amount: u64)
    requires
        accounts_unique(old(s)@),
    ensures
        accounts_unique(final(s)@),
        balance_in(final(s)@, user@) == Some(
            match balance_in(old(s)@, user@) {
                Some(b) => sat_add64(b, amount),
                None => amount,
            },
        ),
        forall|v: Seq<char>|
            v != user@ ==> balance_in(final(s)@, v) == balance_in(old(s)@, v),
        forall|v: Seq<char>|
            v != user@ ==> has_account_in(final(s)@, v) == has_account_in(old(s)@, v),
        has_account_in(final(s)@, user@),
{
    if !acct_credit(s, user, amount) {
        let a = Account { user_id: user.clone(), balance: amount };
        proof { lemma_account_push(s@, a) }
        s.push(a);
    }
}

/// Outcome of a guarded debit.
#[derive(Clone, Copy, Debug, PartialEq, Eq, Structural)]
pub(crate) enum Debit {
    Done,
    Short,
    Missing,
}

/// Debit a user's balance under the guard `balance >= amount`; on a guard or
/// lookup failure nothing changes.
pub(crate) fn acct_debit(s: &mut Vec<Account>, user: &String, amount: u64) -> (r: Debit)
    requires
        accounts_unique(old(s)@),
    ensures
        accounts_unique(final(s)@),
        match r {
            Debit::Done => {
                &&& balance_in(old(s)@, user@) is Some
                &&& balance_in(old(s)@, user@)->Some_0 >= amount
                &&& balance_in(final(s)@, user@) == Some(
                    (balance_in(old(s)@, user@)->Some_0 - amount) as u64,
                )
            },
            Debit::Short => {
                &&& balance_in(old(s)@, user@) is Some
                &&& balance_in(old(s)@, user@)->Some_0 < amount
                &&& final(s)@ == old(s)@
            },
            Debit::Missing => {
                &&& balance_in(old(s)@, user@) is None
                &&& final(s)@ == old(s)@
            },
        },
        forall|v: Seq<char>|
            v != user@ ==> balance_in(final(s)@, v) == balance_in(old(s)@, v),
        forall|v: Seq<char>| has_account_in(final(s)@, v) == has_account_in(old(s)@, v),
{
    match acct_find(s, user) {
        None => Debit::Missing,
        Some(i) => {
            proof { lemma_account_at(s@, i as int) }
            if s[i].balance >= amount {
                let nb = s[i].balance - amount;
                let a = Account { user_id: s[i].user_id.clone(), balance: nb };
                proof { lemma_account_update(s@, i as int, a) }
                s[i] = a;
                Debit::Done
            } else {
                Debit::Short
            }
        },
    }
}

// ---------------------------------------------------------------------------
// Executable helpers: queued orders.
// ---------------------------------------------------------------------------

/// Remove and return a user's queued order, if any.
pub(crate) fn order_take(s: &mut Vec<QueuedOrder>, user: &String) -> (r: Option<QueuedOrder>)
    requires
        orders_unique(old(s)@),
    ensures
        orders_unique(final(s)@),
        r == order_in(old(s)@, user@),
        !has_order_in(final(s)@, user@),
        forall|v: Seq<char>|
            v != user@ ==> order_in(final(s)@, v) == order_in(old(s)@, v),
        forall|v: Seq<char>|
            v != user@ ==> has_order_in(final(s)@, v) == has_order_in(old(s)@, v),
        orders_priced(old(s)@) ==> orders_priced(final(s)@),
        r is None ==> final(s)@ == old(s)@,
{
    let mut k: usize = 0;
    while k < s.len()
        invariant
            s@ == old(s)@,
            k <= s@.len(),
            orders_unique(s@),
            forall|j: int| 0 <= j < k ==> s@[j].user_id@ != user@,
        decreases s@.len() - k,
    {
        if s[k].user_id == *user {
            proof {
                lemma_order_at(s@, k as int);
                lemma_order_remove(s@, k as int);
            }
            return Some(s.remove(k));
        }
        k += 1;
    }
    None
}

// ---------------------------------------------------------------------------
// Executable helpers: holdings.
// ---------------------------------------------------------------------------

/// Find the index of a holding row.
pub(crate) fn holding_find(s: &Vec<Holding>, user: &String, sym: &String) -> (r: Option<usize>)
    ensures
        match r {
            Some(i) => i < s@.len() && s@[i as int].owner_id@ == user@
                && s@[i as int].stock_symbol@ == sym@,
            None => !has_holding_in(s@, user@, sym@),
        },
{
    let mut k: usize = 0;
    while k < s.len()
        invariant
            k <= s@.len(),
            forall|j: int|
                0 <= j < k ==> !(s@[j].owner_id@ == user@ && s@[j].stock_symbol@ == sym@),
        decreases s@.len() - k,
    {
        if s[k].owner_id == *user && s[k].stock_symbol == *sym {
            return Some(k);
        }
        k += 1;
    }
    None
}

/// Credit shares to an existing holding row, saturating at the cap; a
/// missing row is left missing, as a conditional update would leave it.
pub(crate) fn holding_credit(s: &mut Vec<Holding>, user: &String, sym: &String, amount: u64) -> (r:
    bool)
    requires
        holdings_unique(old(s)@),
    ensures
        holdings_unique(final(s)@),
        r == has_holding_in(old(s)@, user@, sym@),
        r ==> holding_in(final(s)@, user@, sym@) == Some(
            sat_add64(holding_in(old(s)@, user@, sym@)->Some_0, amount),
        ),
        !r ==> final(s)@ == old(s)@,
        forall|v: Seq<char>, sy: Seq<char>|
            !(v == user@ && sy == sym@) ==> holding_in(final(s)@, v, sy) == holding_in(
                old(s)@,
                v,
                sy,
            ),
        forall|v: Seq<char>, sy: Seq<char>|
            has_holding_in(final(s)@, v, sy) == has_holding_in(old(s)@, v, sy),
{
    match holding_find(s, user, sym) {
        None => false,
        Some(i) => {
            proof { lemma_holding_at(s@, i as int) }
            let na = s[i].amount.saturating_add(amount);
            let h = Holding {
                owner_id: s[i].owner_id.clone(),
                stock_symbol: s[i].stock_symbol.clone(),
                amount: na,
            };
            proof { lemma_holding_update(s@, i as int, h) }
            s[i] = h;
            true
        },
    }
}

/// Credit shares, creating the holding row if it does not exist yet.
pub(crate) fn holding_upsert_credit(s: &mut Vec<Holding>, user: &String, sym: &String, amount: u64)
    requires
        holdings_unique(old(s)@),
    ensures
        holdings_unique(final(s)@),
        holding_in(final(s)@, user@, sym@) == Some(
            match holding_in(old(s)@, user@, sym@) {
                Some(a) => sat_add64(a, amount),
                None => amount,
            },
        ),
        forall|v: Seq<char>, sy: Seq<char>|
            !(v == user@ && sy == sym@) ==> holding_in(final(s)@, v, sy) == holding_in(
                old(s)@,
                v,
                sy,
            ),
        forall|v: Seq<char>, sy: Seq<char>|
            !(v == user@ && sy == sym@) ==> has_holding_in(final(s)@, v, sy) == has_holding_in(
                old(s)@,
                v,
                sy,
            ),
        has_holding_in(final(s)@, user@, sym@),
{
    if !holding_credit(s, user, sym, amount) {
        let h = Holding {
            owner_id: user.clone(),
            stock_symbol: sym.clone(),
            amount,
        };
        proof { lemma_holding_push(s@, h) }
        s.push(h);
    }
}

/// Debit shares under the guard `amount held >= amount`; on a guard or
/// lookup failure nothing changes.
pub(crate) fn holding_debit(s: &mut Vec<Holding>, user: &String, sym: &String, amount: u64) -> (r:
    Debit)
    requires
        holdings_unique(old(s)@),
    ensures
        holdings_unique(final(s)@),
        match r {
            Debit::Done => {
                &&& holding_in(old(s)@, user@, sym@) is Some
                &&& holding_in(old(s)@, user@, sym@)->Some_0 >= amount
                &&& holding_in(final(s)@, user@, sym@) == Some(
                    (holding_in(old(s)@, user@, sym@)->Some_0 - amount) as u64,
                )
            },
            Debit::Short => {
                &&& holding_in(old(s)@, user@, sym@) is Some
                &&& holding_in(old(s)@, user@, sym@)->Some_0 < amount
                &&& final(s)@ == old(s)@
            },
            Debit::Missing => {
                &&& holding_in(old(s)@, user@, sym@) is None
                &&& final(s)@ == old(s)@
            },
        },
        forall|v: Seq<char>, sy: Seq<char>|
            !(v == user@ && sy == sym@) ==> holding_in(final(s)@, v, sy) == holding_in(
                old(s)@,
                v,
                sy,
            ),
        forall|v: Seq<char>, sy: Seq<char>|
            has_holding_in(final(s)@, v, sy) == has_holding_in(old(s)@, v, sy),
{
    match holding_find(s, user, sym) {
        None => Debit::Missing,
        Some(i) => {
            proof { lemma_holding_at(s@, i as int) }
            if s[i].amount >= amount {
                let na = s[i].amount - amount;
                let h = Holding {
                    owner_id: s[i].owner_id.clone(),
                    stock_symbol: s[i].stock_symbol.clone(),
                    amount: na,
                };
                proof { lemma_holding_update(s@, i as int, h) }
                s[i] = h;
                Debit::Done
            } else {
                Debit::Short
            }
        },
    }
}

// ---------------------------------------------------------------------------
// Executable helpers: standing orders.
// ---------------------------------------------------------------------------

/// Remove and return the standing order of `user` on `sym`, if any.
pub(crate) fn standing_take(s: &mut Vec<StandingOrder>, user: &String, sym: &String) -> (r: Option<
    StandingOrder,
>)
    requires
        standings_unique(old(s)@),
    ensures
        standings_unique(final(s)@),
        r == standing_in(old(s)@, user@, sym@),
        !has_standing_in(final(s)@, user@, sym@),
        forall|v: Seq<char>, sy: Seq<char>|
            !(v == user@ && sy == sym@) ==> standing_in(final(s)@, v, sy) == standing_in(
                old(s)@,
                v,
                sy,
            ),
        forall|v: Seq<char>, sy: Seq<char>|
            !(v == user@ && sy == sym@) ==> has_standing_in(final(s)@, v, sy) == has_standing_in(
                old(s)@,
                v,
                sy,
            ),
        r is None ==> final(s)@ == old(s)@,
{
    let mut k: usize = 0;
    while k < s.len()
        invariant
            s@ == old(s)@,
            k <= s@.len(),
            standings_unique(s@),
            forall|j: int|
                0 <= j < k ==> !(s@[j].owner_id@ == user@ && s@[j].stock_symbol@ == sym@),
        decreases s@.len() - k,
    {
        if s[k].owner_id == *user && s[k].stock_symbol == *sym {
            proof {
                lemma_standing_at(s@, k as int);
                lemma_standing_remove(s@, k as int);
            }
            return Some(s.remove(k));
        }
        k += 1;
    }
    None
}

/// Insert a standing order for a key that has none.
pub(crate) fn standing_put(s: &mut Vec<StandingOrder>, t: StandingOrder)
    requires
        standings_unique(old(s)@),
        !has_standing_in(old(s)@, t.owner_id@, t.stock_symbol@),
    ensures
        standings_unique(final(s)@),
        standing_in(final(s)@, t.owner_id@, t.stock_symbol@) == Some(t),
        forall|v: Seq<char>, sy: Seq<char>|
            !(v == t.owner_id@ && sy == t.stock_symbol@) ==> standing_in(final(s)@, v, sy)
                == standing_in(old(s)@, v, sy),
        forall|v: Seq<char>, sy: Seq<char>|
            !(v == t.owner_id@ && sy == t.stock_symbol@) ==> has_standing_in(final(s)@, v, sy)
                == has_standing_in(old(s)@, v, sy),
{
    proof { lemma_standing_push(s@, t) }
    s.push(t);
}

/// Set the trigger price of an existing standing order; reports whether one
/// existed.
pub(crate) fn standing_set_price(
    s: &mut Vec<StandingOrder>,
    user: &String,
    sym: &String,
    price: u64,
) -> (r: bool)
    requires
        standings_unique(old(s)@),
    ensures
        standings_unique(final(s)@),
        r == has_standing_in(old(s)@, user@, sym@),
        r ==> standing_in(final(s)@, user@, sym@) == Some(
            StandingOrder {
                trigger_price: Some(price),
                ..standing_in(old(s)@, user@, sym@)->Some_0
            },
        ),
        !r ==> final(s)@ == old(s)@,
        forall|v: Seq<char>, sy: Seq<char>|
            !(v == user@ && sy == sym@) ==> standing_in(final(s)@, v, sy) == standing_in(
                old(s)@,
                v,
                sy,
            ),
        forall|v: Seq<char>, sy: Seq<char>|
            has_standing_in(final(s)@, v, sy) == has_standing_in(old(s)@, v, sy),
{
    let mut k: usize = 0;
    while k < s.len()
        invariant
            s@ == old(s)@,
            k <= s@.len(),
            standings_unique(s@),
            forall|j: int|
                0 <= j < k ==> !(s@[j].owner_id@ == user@ && s@[j].stock_symbol@ == sym@),
        decreases s@.len() - k,
    {
        if s[k].owner_id == *user && s[k].stock_symbol == *sym {
            proof { lemma_standing_at(s@, k as int) }
            let t = StandingOrder {
                owner_id: s[k].owner_id.clone(),
                stock_symbol: s[k].stock_symbol.clone(),
                amount: s[k].amount,
                trigger_price: Some(price),
            };
            proof { lemma_standing_update(s@, k as int, t) }
            s[k] = t;
            return true;
        }
        k += 1;
    }
    false
}

/// Borrow a user's queued order, if any.
pub(crate) fn order_get<'a>(s: &'a Vec<QueuedOrder>, user: &String) -> (r: Option<&'a QueuedOrder>)
    requires
        orders_unique(s@),
    ensures
        match r {
            Some(o) => order_in(s@, user@) == Some(*o),
            None => order_in(s@, user@) is None,
        },
{
    let mut k: usize = 0;
    while k < s.len()
        invariant
            k <= s@.len(),
            orders_unique(s@),
            forall|j: int| 0 <= j < k ==> s@[j].user_id@ != user@,
        decreases s@.len() - k,
    {
        if s[k].user_id == *user {
            proof { lemma_order_at(s@, k as int) }
            return Some(&s[k]);
        }
        k += 1;
    }
    None
}

/// Borrow the standing order of `user` on `sym`, if any.
pub(crate) fn standing_get<'a>(s: &'a Vec<StandingOrder>, user: &String, sym: &String) -> (r:
    Option<&'a StandingOrder>)
    requires
        standings_unique(s@),
    ensures
        match r {
            Some(t) => standing_in(s@, user@, sym@) == Some(*t),
            None => standing_in(s@, user@, sym@) is None,
        },
{
    let mut k: usize = 0;
    while k < s.len()
        invariant
            k <= s@.len(),
            standings_unique(s@),
            forall|j: int|
                0 <= j < k ==> !(s@[j].owner_id@ == user@ && s@[j].stock_symbol@ == sym@),
        decreases s@.len() - k,
    {
        if s[k].owner_id == *user && s[k].stock_symbol == *sym {
            proof { lemma_standing_at(s@, k as int) }
            return Some(&s[k]);
        }
        k += 1;
    }
    None
}

/// Insert a queued order for a user who has none.
pub(crate) fn order_put(s: &mut Vec<QueuedOrder>, o: QueuedOrder)
    requires
        orders_unique(old(s)@),
        !has_order_in(old(s)@, o.user_id@),
    ensures
        orders_unique(final(s)@),
        order_in(final(s)@, o.user_id@) == Some(o),
        forall|v: Seq<char>|
            v != o.user_id@ ==> order_in(final(s)@, v) == order_in(old(s)@, v),
        forall|v: Seq<char>|
            v != o.user_id@ ==> has_order_in(final(s)@, v) == has_order_in(old(s)@, v),
        orders_priced(old(s)@) && o.quoted_price >= 1 ==> orders_priced(final(s)@),
{
    proof { lemma_order_push(s@, o) }
    s.push(o);
}

} // verus!
