//! The order engine: deposits and the two-phase buy and sell protocol.
//!
//! Every operation behaves as one atomic transaction over the [`Ledger`]: it
//! either applies its whole effect or, on a typed failure, leaves the ledger
//! unchanged. The one deliberate exception is the expiry pattern: committing
//! or cancelling a stale order still reverses its reservation, and the call
//! reports [`TradeError::OrderExpired`].
//!
//! Each operation's effect is stated by a named predicate over the ledger
//! before and after the call, so that properties spanning several calls can
//! be proved from the contracts alone.

use vstd::prelude::*;

use crate::errors::TradeError;
use crate::ledger::{
    acct_credit, acct_debit, acct_upsert_credit, holding_credit, holding_debit,
    holding_upsert_credit, order_get, order_put, order_take, sat_add64, Debit, Ledger, QueuedOrder,
};
use crate::{BUY_ORDER_TTL_SECONDS, SELL_ORDER_TTL_SECONDS};

verus! {

/// The net cash movement of one operation, in cents; negative when the
/// operation reserved more than it released.
#[derive(Clone, Copy, Debug, PartialEq, Eq, Structural)]
pub struct AccountTransaction {
    pub cents: i128,
}

/// A queued order is stale once its validity window has passed.
pub open spec fn order_expired(o: QueuedOrder, ttl: u64, now: u64) -> bool {
    o.time_created + ttl < now
}

/// A balance or holding after a saturating credit; a missing row stays
/// missing, as a conditional update leaves it.
pub open spec fn credited(b: Option<u64>, amount: u64) -> Option<u64> {
    match b {
        Some(x) => Some(sat_add64(x, amount)),
        None => None,
    }
}

/// The cents a user's pending buy holds reserved: refunded when the order is
/// replaced, cancelled or expires.
pub open spec fn buy_refund(l: Ledger, u: Seq<char>) -> u64 {
    match l.queued_buy_of(u) {
        Some(o) => o.amount_dollars,
        None => 0,
    }
}

/// The shares a user's pending sell holds reserved in `sym`: restocked when
/// the order is replaced, cancelled or expires.
pub open spec fn sell_restock(l: Ledger, u: Seq<char>, sym: Seq<char>) -> u64 {
    match l.queued_sell_of(u) {
        Some(o) => if o.stock_symbol@ == sym {
            o.spec_shares()
        } else {
            0
        },
        None => 0,
    }
}

/// Everything but the accounts is as it was.
pub open spec fn only_accounts_touched(l0: Ledger, l1: Ledger) -> bool {
    &&& l1.holdings@ == l0.holdings@
    &&& l1.queued_buys@ == l0.queued_buys@
    &&& l1.queued_sells@ == l0.queued_sells@
    &&& l1.buy_triggers@ == l0.buy_triggers@
    &&& l1.sell_triggers@ == l0.sell_triggers@
}

/// Nothing changed at all.
pub open spec fn ledger_unchanged(l0: Ledger, l1: Ledger) -> bool {
    &&& l1.accounts@ == l0.accounts@
    &&& only_accounts_touched(l0, l1)
}

/// What a successful deposit does: the amount is credited, the account being
/// created on first deposit, and nothing else moves.
pub open spec fn add_ok(l0: Ledger, l1: Ledger, u: Seq<char>, amount: u64) -> bool {
    &&& l1.balance_of(u) == Some(
        match l0.balance_of(u) {
            Some(b) => sat_add64(b, amount),
            None => amount,
        },
    )
    &&& forall|v: Seq<char>| v != u ==> l1.balance_of(v) == l0.balance_of(v)
    &&& only_accounts_touched(l0, l1)
}

/// What a successful `init_buy` does: any prior pending buy is resolved (its
/// reservation refunded), the new amount is debited, and the user's single
/// pending buy records the quote and creation time.
pub open spec fn init_buy_ok(
    l0: Ledger,
    l1: Ledger,
    u: Seq<char>,
    sym: Seq<char>,
    price: u64,
    amount: u64,
    now: u64,
    tx: AccountTransaction,
) -> bool {
    let b0 = l0.balance_of(u)->Some_0;
    let avail = sat_add64(b0, buy_refund(l0, u));
    &&& l0.balance_of(u) is Some
    &&& avail >= amount
    &&& l1.balance_of(u) == Some((avail - amount) as u64)
    &&& forall|v: Seq<char>| v != u ==> l1.balance_of(v) == l0.balance_of(v)
    &&& match l1.queued_buy_of(u) {
        Some(o) => o.user_id@ == u && o.stock_symbol@ == sym && o.quoted_price == price
            && o.amount_dollars == amount && o.time_created == now,
        None => false,
    }
    &&& forall|v: Seq<char>| v != u ==> l1.queued_buy_of(v) == l0.queued_buy_of(v)
    &&& l1.holdings@ == l0.holdings@
    &&& l1.queued_sells@ == l0.queued_sells@
    &&& l1.buy_triggers@ == l0.buy_triggers@
    &&& l1.sell_triggers@ == l0.sell_triggers@
    &&& tx.cents == buy_refund(l0, u) - amount
}

/// When `init_buy` must be rejected: the user has no account, or even after
/// refunding the prior reservation the balance would go negative.
pub open spec fn init_buy_rejected(l0: Ledger, u: Seq<char>, amount: u64) -> bool {
    match l0.balance_of(u) {
        Some(b) => sat_add64(b, buy_refund(l0, u)) < amount,
        None => true,
    }
}

/// What a successful `commit_buy` does: the pending buy is consumed and the
/// bought shares are credited at the quoted price; the cash was already
/// debited when the order was queued, so no balance moves.
pub open spec fn commit_buy_ok(l0: Ledger, l1: Ledger, u: Seq<char>, now: u64) -> bool {
    let o = l0.queued_buy_of(u)->Some_0;
    &&& l0.queued_buy_of(u) is Some
    &&& !order_expired(o, BUY_ORDER_TTL_SECONDS, now)
    &&& l1.queued_buy_of(u) is None
    &&& forall|v: Seq<char>| v != u ==> l1.queued_buy_of(v) == l0.queued_buy_of(v)
    &&& l1.holding_of(u, o.stock_symbol@) == Some(
        match l0.holding_of(u, o.stock_symbol@) {
            Some(h) => sat_add64(h, o.spec_shares()),
            None => o.spec_shares(),
        },
    )
    &&& forall|v: Seq<char>, sy: Seq<char>|
        !(v == u && sy == o.stock_symbol@) ==> l1.holding_of(v, sy) == l0.holding_of(v, sy)
    &&& l1.accounts@ == l0.accounts@
    &&& l1.queued_sells@ == l0.queued_sells@
    &&& l1.buy_triggers@ == l0.buy_triggers@
    &&& l1.sell_triggers@ == l0.sell_triggers@
}

/// What acting on a stale pending buy does: the order is consumed, the
/// reserved cents flow back to the balance, and no holding is created.
pub open spec fn buy_reverted(l0: Ledger, l1: Ledger, u: Seq<char>) -> bool {
    let o = l0.queued_buy_of(u)->Some_0;
    &&& l0.queued_buy_of(u) is Some
    &&& l1.queued_buy_of(u) is None
    &&& forall|v: Seq<char>| v != u ==> l1.queued_buy_of(v) == l0.queued_buy_of(v)
    &&& l1.balance_of(u) == credited(l0.balance_of(u), o.amount_dollars)
    &&& forall|v: Seq<char>| v != u ==> l1.balance_of(v) == l0.balance_of(v)
    &&& l1.holdings@ == l0.holdings@
    &&& l1.queued_sells@ == l0.queued_sells@
    &&& l1.buy_triggers@ == l0.buy_triggers@
    &&& l1.sell_triggers@ == l0.sell_triggers@
}

/// What a successful `init_sell` does: any prior pending sell is resolved
/// (its share reservation restocked), the shares the new order stands for
/// are debited, and the user's single pending sell records the quote and
/// creation time.
pub open spec fn init_sell_ok(
    l0: Ledger,
    l1: Ledger,
    u: Seq<char>,
    sym: Seq<char>,
    price: u64,
    amount: u64,
    now: u64,
) -> bool {
    let h0 = l0.holding_of(u, sym)->Some_0;
    let avail = sat_add64(h0, sell_restock(l0, u, sym));
    let needed = (amount / price) as u64;
    &&& l0.holding_of(u, sym) is Some
    &&& avail >= needed
    &&& l1.holding_of(u, sym) == Some((avail - needed) as u64)
    &&& forall|v: Seq<char>, sy: Seq<char>|
        !(v == u && sy == sym) ==> l1.holding_of(v, sy) == match l0.queued_sell_of(u) {
            Some(o) => if v == u && sy == o.stock_symbol@ {
                credited(l0.holding_of(v, sy), o.spec_shares())
            } else {
                l0.holding_of(v, sy)
            },
            None => l0.holding_of(v, sy),
        }
    &&& match l1.queued_sell_of(u) {
        Some(o) => o.user_id@ == u && o.stock_symbol@ == sym && o.quoted_price == price
            && o.amount_dollars == amount && o.time_created == now,
        None => false,
    }
    &&& forall|v: Seq<char>| v != u ==> l1.queued_sell_of(v) == l0.queued_sell_of(v)
    &&& l1.accounts@ == l0.accounts@
    &&& l1.queued_buys@ == l0.queued_buys@
    &&& l1.buy_triggers@ == l0.buy_triggers@
    &&& l1.sell_triggers@ == l0.sell_triggers@
}

/// When `init_sell` must be rejected: the user holds no row of the symbol,
/// or even after restocking the prior reservation the holding would go
/// negative.
pub open spec fn init_sell_rejected(
    l0: Ledger,
    u: Seq<char>,
    sym: Seq<char>,
    price: u64,
    amount: u64,
) -> bool {
    match l0.holding_of(u, sym) {
        Some(h) => sat_add64(h, sell_restock(l0, u, sym)) < amount / price,
        None => true,
    }
}

/// What a successful `commit_sell` does: the pending sell is consumed and
/// its dollar amount is credited; the shares were already debited when the
/// order was queued, so no holding moves.
pub open spec fn commit_sell_ok(l0: Ledger, l1: Ledger, u: Seq<char>, now: u64) -> bool {
    let o = l0.queued_sell_of(u)->Some_0;
    &&& l0.queued_sell_of(u) is Some
    &&& !order_expired(o, SELL_ORDER_TTL_SECONDS, now)
    &&& l1.queued_sell_of(u) is None
    &&& forall|v: Seq<char>| v != u ==> l1.queued_sell_of(v) == l0.queued_sell_of(v)
    &&& l1.balance_of(u) == credited(l0.balance_of(u), o.amount_dollars)
    &&& forall|v: Seq<char>| v != u ==> l1.balance_of(v) == l0.balance_of(v)
    &&& l1.holdings@ == l0.holdings@
    &&& l1.queued_buys@ == l0.queued_buys@
    &&& l1.buy_triggers@ == l0.buy_triggers@
    &&& l1.sell_triggers@ == l0.sell_triggers@
}

/// What acting on a stale or cancelled pending sell does: the order is
/// consumed and the reserved shares flow back to the holding; no cash moves.
/// `upsert` tells whether a missing holding row is recreated (a cancel does,
/// the expiry path of a commit does not).
pub open spec fn sell_reverted(l0: Ledger, l1: Ledger, u: Seq<char>, upsert: bool) -> bool {
    let o = l0.queued_sell_of(u)->Some_0;
    &&& l0.queued_sell_of(u) is Some
    &&& l1.queued_sell_of(u) is None
    &&& forall|v: Seq<char>| v != u ==> l1.queued_sell_of(v) == l0.queued_sell_of(v)
    &&& l1.holding_of(u, o.stock_symbol@) == (match l0.holding_of(u, o.stock_symbol@) {
        Some(h) => Some(sat_add64(h, o.spec_shares())),
        None => if upsert {
            Some(o.spec_shares())
        } else {
            None
        },
    })
    &&& forall|v: Seq<char>, sy: Seq<char>|
        !(v == u && sy == o.stock_symbol@) ==> l1.holding_of(v, sy) == l0.holding_of(v, sy)
    &&& l1.accounts@ == l0.accounts@
    &&& l1.queued_buys@ == l0.queued_buys@
    &&& l1.buy_triggers@ == l0.buy_triggers@
    &&& l1.sell_triggers@ == l0.sell_triggers@
}

impl Ledger {
    /// Deposit `amount` cents into a user's account, creating the account on
    /// first use. Rejects a zero deposit.
    ///
    /// Mirrors the `Add` operation of the service.
    pub fn add(&mut self, user_id: &String, amount: u64) -> (r: Result<
        AccountTransaction,
        TradeError,
    >)
        requires
            old(self).wf(),
        ensures
            final(self).wf(),
            match r {
                Ok(tx) => amount > 0 && add_ok(*old(self), *final(self), user_id@, amount) && tx.cents
                    == amount,
                Err(e) => e == TradeError::InvalidAmount && amount == 0 && ledger_unchanged(
                    *old(self),
                    *final(self),
                ),
            },
    {
        if amount == 0 {
            return Err(TradeError::InvalidAmount);
        }
        acct_upsert_credit(&mut self.accounts, user_id, amount);
        Ok(AccountTransaction { cents: amount as i128 })
    }

    /// Queue a buy of `amount_dollars` cents of `stock_symbol` at the quoted
    /// price. Any prior pending buy is refunded first; the new amount is
    /// reserved from the balance in the same transaction.
    pub fn init_buy(
        &mut self,
        user_id: &String,
        stock_symbol: &String,
        quoted_price: u64,
        amount_dollars: u64,
        now: u64,
    ) -> (r: Result<AccountTransaction, TradeError>)
        requires
            old(self).wf(),
            quoted_price >= 1,
        ensures
            final(self).wf(),
            match r {
                Ok(tx) => init_buy_ok(
                    *old(self),
                    *final(self),
                    user_id@,
                    stock_symbol@,
                    quoted_price,
                    amount_dollars,
                    now,
                    tx,
                ),
                Err(e) => e == TradeError::InsufficientFunds && init_buy_rejected(
                    *old(self),
                    user_id@,
                    amount_dollars,
                ) && ledger_unchanged(*old(self), *final(self)),
            },
    {
        let refund: u64 = match order_get(&self.queued_buys, user_id) {
            Some(o) => o.amount_dollars,
            None => 0,
        };
        let balance = match self.balance(user_id) {
            Some(b) => b,
            None => {
                return Err(TradeError::InsufficientFunds);
            },
        };
        let avail = balance.saturating_add(refund);
        if avail < amount_dollars {
            return Err(TradeError::InsufficientFunds);
        }
        order_take(&mut self.queued_buys, user_id);
        acct_credit(&mut self.accounts, user_id, refund);
        let d = acct_debit(&mut self.accounts, user_id, amount_dollars);
        assert(d == Debit::Done);
        order_put(
            &mut self.queued_buys,
            QueuedOrder {
                user_id: user_id.clone(),
                stock_symbol: stock_symbol.clone(),
                quoted_price,
                amount_dollars,
                time_created: now,
            },
        );
        Ok(AccountTransaction { cents: refund as i128 - amount_dollars as i128 })
    }

    /// Commit the user's pending buy: consume it and credit the shares it
    /// bought. A stale order is instead reversed and reported as expired.
    pub fn commit_buy(&mut self, user_id: &String, now: u64) -> (r: Result<(), TradeError>)
        requires
            old(self).wf(),
        ensures
            final(self).wf(),
            match r {
                Ok(()) => commit_buy_ok(*old(self), *final(self), user_id@, now),
                Err(TradeError::NoPendingOrder) => old(self).queued_buy_of(user_id@) is None
                    && ledger_unchanged(*old(self), *final(self)),
                Err(TradeError::OrderExpired) => buy_reverted(*old(self), *final(self), user_id@)
                    && order_expired(
                    old(self).queued_buy_of(user_id@)->Some_0,
                    BUY_ORDER_TTL_SECONDS,
                    now,
                ),
                Err(_) => false,
            },
    {
        let o = match order_take(&mut self.queued_buys, user_id) {
            Some(o) => o,
            None => {
                return Err(TradeError::NoPendingOrder);
            },
        };
        if o.time_created.saturating_add(BUY_ORDER_TTL_SECONDS) < now {
            acct_credit(&mut self.accounts, user_id, o.amount_dollars);
            return Err(TradeError::OrderExpired);
        }
        let shares = o.amount_dollars / o.quoted_price;
        holding_upsert_credit(&mut self.holdings, user_id, &o.stock_symbol, shares);
        Ok(())
    }

    /// Cancel the user's pending buy, refunding its reservation. The refund
    /// happens even for a stale order, but the call then reports it expired.
    pub fn cancel_buy(&mut self, user_id: &String, now: u64) -> (r: Result<(), TradeError>)
        requires
            old(self).wf(),
        ensures
            final(self).wf(),
            match r {
                Ok(()) => buy_reverted(*old(self), *final(self), user_id@) && !order_expired(
                    old(self).queued_buy_of(user_id@)->Some_0,
                    BUY_ORDER_TTL_SECONDS,
                    now,
                ),
                Err(TradeError::NoPendingOrder) => old(self).queued_buy_of(user_id@) is None
                    && ledger_unchanged(*old(self), *final(self)),
                Err(TradeError::OrderExpired) => buy_reverted(*old(self), *final(self), user_id@)
                    && order_expired(
                    old(self).queued_buy_of(user_id@)->Some_0,
                    BUY_ORDER_TTL_SECONDS,
                    now,
                ),
                Err(_) => false,
            },
    {
        let o = match order_take(&mut self.queued_buys, user_id) {
            Some(o) => o,
            None => {
                return Err(TradeError::NoPendingOrder);
            },
        };
        acct_credit(&mut self.accounts, user_id, o.amount_dollars);
        if o.time_created.saturating_add(BUY_ORDER_TTL_SECONDS) < now {
            return Err(TradeError::OrderExpired);
        }
        Ok(())
    }

    /// Queue a sale of `amount_dollars` cents' worth of `stock_symbol` at
    /// the quoted price. Any prior pending sell is restocked first; the
    /// shares the new order stands for are reserved from the holding in the
    /// same transaction.
    pub fn init_sell(
        &mut self,
        user_id: &String,
        stock_symbol: &String,
        quote: u64,
        dollar_amount: u64,
        now: u64,
    ) -> (r: Result<(), TradeError>)
        requires
            old(self).wf(),
            quote >= 1,
        ensures
            final(self).wf(),
            match r {
                Ok(()) => init_sell_ok(
                    *old(self),
                    *final(self),
                    user_id@,
                    stock_symbol@,
                    quote,
                    dollar_amount,
                    now,
                ),
                Err(e) => e == TradeError::InsufficientShares && init_sell_rejected(
                    *old(self),
                    user_id@,
                    stock_symbol@,
                    quote,
                    dollar_amount,
                ) && ledger_unchanged(*old(self), *final(self)),
            },
    {
        let restock: u64 = match order_get(&self.queued_sells, user_id) {
            Some(o) => {
                if o.stock_symbol == *stock_symbol {
                    o.amount_dollars / o.quoted_price
                } else {
                    0
                }
            },
            None => 0,
        };
        let held = match self.holding(user_id, stock_symbol) {
            Some(h) => h,
            None => {
                return Err(TradeError::InsufficientShares);
            },
        };
        let needed = dollar_amount / quote;
        if held.saturating_add(restock) < needed {
            return Err(TradeError::InsufficientShares);
        }
        match order_take(&mut self.queued_sells, user_id) {
            Some(o) => {
                let shares = o.amount_dollars / o.quoted_price;
                holding_credit(&mut self.holdings, user_id, &o.stock_symbol, shares);
            },
            None => (),
        }
        let d = holding_debit(&mut self.holdings, user_id, stock_symbol, needed);
        assert(d == Debit::Done);
        order_put(
            &mut self.queued_sells,
            QueuedOrder {
                user_id: user_id.clone(),
                stock_symbol: stock_symbol.clone(),
                quoted_price: quote,
                amount_dollars: dollar_amount,
                time_created: now,
            },
        );
        Ok(())
    }

    /// Commit the user's pending sell: consume it and credit the cash it
    /// raised. A stale order is instead reversed and reported as expired.
    pub fn commit_sell(&mut self, user_id: &String, now: u64) -> (r: Result<
        AccountTransaction,
        TradeError,
    >)
        requires
            old(self).wf(),
        ensures
            final(self).wf(),
            match r {
                Ok(tx) => commit_sell_ok(*old(self), *final(self), user_id@, now) && tx.cents
                    == old(self).queued_sell_of(user_id@)->Some_0.amount_dollars,
                Err(TradeError::NoPendingOrder) => old(self).queued_sell_of(user_id@) is None
                    && ledger_unchanged(*old(self), *final(self)),
                Err(TradeError::OrderExpired) => sell_reverted(
                    *old(self),
                    *final(self),
                    user_id@,
                    false,
                ) && order_expired(
                    old(self).queued_sell_of(user_id@)->Some_0,
                    SELL_ORDER_TTL_SECONDS,
                    now,
                ),
                Err(_) => false,
            },
    {
        let o = match order_take(&mut self.queued_sells, user_id) {
            Some(o) => o,
            None => {
                return Err(TradeError::NoPendingOrder);
            },
        };
        if o.time_created.saturating_add(SELL_ORDER_TTL_SECONDS) < now {
            let shares = o.amount_dollars / o.quoted_price;
            holding_credit(&mut self.holdings, user_id, &o.stock_symbol, shares);
            return Err(TradeError::OrderExpired);
        }
        acct_credit(&mut self.accounts, user_id, o.amount_dollars);
        Ok(AccountTransaction { cents: o.amount_dollars as i128 })
    }

    /// Cancel the user's pending sell, restocking its reserved shares. The
    /// restock happens even for a stale order, but the call then reports it
    /// expired.
    pub fn cancel_sell(&mut self, user_id: &String, now: u64) -> (r: Result<(), TradeError>)
        requires
            old(self).wf(),
        ensures
            final(self).wf(),
            match r {
                Ok(()) => sell_reverted(*old(self), *final(self), user_id@, true) && !order_expired(
                    old(self).queued_sell_of(user_id@)->Some_0,
                    SELL_ORDER_TTL_SECONDS,
                    now,
                ),
                Err(TradeError::NoPendingOrder) => old(self).queued_sell_of(user_id@) is None
                    && ledger_unchanged(*old(self), *final(self)),
                Err(TradeError::OrderExpired) => sell_reverted(
                    *old(self),
                    *final(self),
                    user_id@,
                    true,
                ) && order_expired(
                    old(self).queued_sell_of(user_id@)->Some_0,
                    SELL_ORDER_TTL_SECONDS,
                    now,
                ),
                Err(_) => false,
            },
    {
        let o = match order_take(&mut self.queued_sells, user_id) {
            Some(o) => o,
            None => {
                return Err(TradeError::NoPendingOrder);
            },
        };
        let shares = o.amount_dollars / o.quoted_price;
        holding_upsert_credit(&mut self.holdings, user_id, &o.stock_symbol, shares);
        if o.time_created.saturating_add(SELL_ORDER_TTL_SECONDS) < now {
            return Err(TradeError::OrderExpired);
        }
        Ok(())
    }
}

} // verus!
