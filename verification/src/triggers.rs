//! Standing conditional orders and the reactive trigger engine.
//!
//! `set_buy_amount` / `set_sell_amount` reserve funds or shares and create a
//! standing order; `set_buy_trigger` / `set_sell_trigger` arm it with a
//! price; the cancel operations reverse the reservation. The trigger engine
//! consumes price updates: on each update it removes every armed standing
//! order of that symbol whose threshold the price crossed and executes it.

use vstd::prelude::*;

use crate::errors::TradeError;
use crate::ledger::{
    accounts_unique, acct_credit, acct_debit, balance_in, has_standing_in, holding_in,
    holdings_unique, holding_credit, holding_debit,
    holding_upsert_credit, lemma_standing_at, lemma_standing_push, sat_add64, sat_mul64,
    standing_get, standing_in, standing_put, standing_set_price, standing_take, standings_unique,
    Debit, Ledger, StandingOrder,
};
use crate::orders::{credited, ledger_unchanged, AccountTransaction};

verus! {

/// The cents a user's standing buy order of `sym` holds reserved.
pub open spec fn buy_trigger_refund(l: Ledger, u: Seq<char>, sym: Seq<char>) -> u64 {
    match l.buy_trigger_of(u, sym) {
        Some(t) => t.amount,
        None => 0,
    }
}

/// The shares a user's standing sell order of `sym` holds reserved.
pub open spec fn sell_trigger_restock(l: Ledger, u: Seq<char>, sym: Seq<char>) -> u64 {
    match l.sell_trigger_of(u, sym) {
        Some(t) => t.amount,
        None => 0,
    }
}

/// What a successful `set_buy_amount` does: a prior standing buy on the
/// symbol is resolved first (its reservation refunded), then the new amount
/// is debited — so the refund can fund the replacement — and the standing
/// order is recreated unarmed.
pub open spec fn set_buy_amount_ok(
    l0: Ledger,
    l1: Ledger,
    u: Seq<char>,
    sym: Seq<char>,
    amount: u64,
    tx: AccountTransaction,
) -> bool {
    let b0 = l0.balance_of(u)->Some_0;
    let refund = buy_trigger_refund(l0, u, sym);
    let avail = sat_add64(b0, refund);
    &&& l0.balance_of(u) is Some
    &&& avail >= amount
    &&& l1.balance_of(u) == Some((avail - amount) as u64)
    &&& forall|v: Seq<char>| v != u ==> l1.balance_of(v) == l0.balance_of(v)
    &&& match l1.buy_trigger_of(u, sym) {
        Some(t) => t.owner_id@ == u && t.stock_symbol@ == sym && t.amount == amount
            && t.trigger_price is None,
        None => false,
    }
    &&& forall|v: Seq<char>, sy: Seq<char>|
        !(v == u && sy == sym) ==> l1.buy_trigger_of(v, sy) == l0.buy_trigger_of(v, sy)
    &&& l1.holdings@ == l0.holdings@
    &&& l1.queued_buys@ == l0.queued_buys@
    &&& l1.queued_sells@ == l0.queued_sells@
    &&& l1.sell_triggers@ == l0.sell_triggers@
    &&& tx.cents == refund - amount
}

/// What a successful `set_sell_amount` does: a prior standing sell on the
/// symbol is restocked first, then the new share reservation is debited and
/// the standing order recreated unarmed.
pub open spec fn set_sell_amount_ok(
    l0: Ledger,
    l1: Ledger,
    u: Seq<char>,
    sym: Seq<char>,
    amount: u64,
) -> bool {
    let h0 = l0.holding_of(u, sym)->Some_0;
    let avail = sat_add64(h0, sell_trigger_restock(l0, u, sym));
    &&& l0.holding_of(u, sym) is Some
    &&& avail >= amount
    &&& l1.holding_of(u, sym) == Some((avail - amount) as u64)
    &&& forall|v: Seq<char>, sy: Seq<char>|
        !(v == u && sy == sym) ==> l1.holding_of(v, sy) == l0.holding_of(v, sy)
    &&& match l1.sell_trigger_of(u, sym) {
        Some(t) => t.owner_id@ == u && t.stock_symbol@ == sym && t.amount == amount
            && t.trigger_price is None,
        None => false,
    }
    &&& forall|v: Seq<char>, sy: Seq<char>|
        !(v == u && sy == sym) ==> l1.sell_trigger_of(v, sy) == l0.sell_trigger_of(v, sy)
    &&& l1.accounts@ == l0.accounts@
    &&& l1.queued_buys@ == l0.queued_buys@
    &&& l1.queued_sells@ == l0.queued_sells@
    &&& l1.buy_triggers@ == l0.buy_triggers@
}

/// What arming a standing order does: only its trigger price changes.
pub open spec fn armed(t0: StandingOrder, t1: StandingOrder, price: u64) -> bool {
    t1 == StandingOrder { trigger_price: Some(price), ..t0 }
}

/// Whether a price update executes a standing order: the symbol matches and
/// the armed threshold is crossed. A buy executes once the price falls to or
/// below its threshold, a sell once it rises to or above.
pub open spec fn trigger_fires(t: StandingOrder, sym: Seq<char>, price: u64, buy_side: bool)
    -> bool {
    &&& t.stock_symbol@ == sym
    &&& match t.trigger_price {
        Some(tp) => if buy_side {
            tp >= price
        } else {
            tp <= price
        },
        None => false,
    }
}

/// The keyed view of the standing orders a price update leaves in place.
pub open spec fn drained_kept(
    o: Option<StandingOrder>,
    sym: Seq<char>,
    price: u64,
    buy_side: bool,
) -> Option<StandingOrder> {
    match o {
        Some(t) => if trigger_fires(t, sym, price, buy_side) {
            None
        } else {
            Some(t)
        },
        None => None,
    }
}

/// The keyed view of the standing orders a price update executes.
pub open spec fn drained_fired(
    o: Option<StandingOrder>,
    sym: Seq<char>,
    price: u64,
    buy_side: bool,
) -> Option<StandingOrder> {
    match o {
        Some(t) => if trigger_fires(t, sym, price, buy_side) {
            Some(t)
        } else {
            None
        },
        None => None,
    }
}

/// A holding after an upserting credit: a missing row is created.
pub open spec fn holding_upserted(b: Option<u64>, amount: u64) -> u64 {
    match b {
        Some(x) => sat_add64(x, amount),
        None => amount,
    }
}

/// What one buy-side trigger check does: every standing buy of the symbol
/// whose threshold is at or above the price is removed (those are exactly
/// the orders in `fired`), and each removed order credits its owner's
/// holding with the shares its reserved cents buy at the update price.
pub open spec fn buy_triggers_checked(
    l0: Ledger,
    l1: Ledger,
    fired: Seq<StandingOrder>,
    sym: Seq<char>,
    price: u64,
) -> bool {
    &&& standings_unique(fired)
    &&& forall|v: Seq<char>, sy: Seq<char>| #![auto]
        l1.buy_trigger_of(v, sy) == drained_kept(l0.buy_trigger_of(v, sy), sym, price, true)
    &&& forall|v: Seq<char>, sy: Seq<char>| #![auto]
        standing_in(fired, v, sy) == drained_fired(l0.buy_trigger_of(v, sy), sym, price, true)
    &&& forall|v: Seq<char>, sy: Seq<char>| #![auto]
        l1.holding_of(v, sy) == if sy == sym && drained_fired(
            l0.buy_trigger_of(v, sy),
            sym,
            price,
            true,
        ) is Some {
            Some(
                holding_upserted(
                    l0.holding_of(v, sy),
                    (l0.buy_trigger_of(v, sy)->Some_0.amount / price) as u64,
                ),
            )
        } else {
            l0.holding_of(v, sy)
        }
}

/// What one sell-side trigger check does: every standing sell of the symbol
/// whose threshold is at or below the price is removed (those are exactly
/// the orders in `fired`), and each removed order credits its owner's
/// balance with the reserved shares valued at the update price.
pub open spec fn sell_triggers_checked(
    l0: Ledger,
    l1: Ledger,
    fired: Seq<StandingOrder>,
    sym: Seq<char>,
    price: u64,
) -> bool {
    &&& standings_unique(fired)
    &&& forall|v: Seq<char>, sy: Seq<char>| #![auto]
        l1.sell_trigger_of(v, sy) == drained_kept(l0.sell_trigger_of(v, sy), sym, price, false)
    &&& forall|v: Seq<char>, sy: Seq<char>| #![auto]
        standing_in(fired, v, sy) == drained_fired(l0.sell_trigger_of(v, sy), sym, price, false)
    &&& forall|v: Seq<char>| #![auto]
        l1.balance_of(v) == if drained_fired(
            l0.sell_trigger_of(v, sym),
            sym,
            price,
            false,
        ) is Some {
            credited(l0.balance_of(v), sat_mul64(l0.sell_trigger_of(v, sym)->Some_0.amount, price))
        } else {
            l0.balance_of(v)
        }
}

/// Executable form of [`trigger_fires`].
fn fires_exec(t: &StandingOrder, sym: &String, price: u64, buy_side: bool) -> (r: bool)
    ensures
        r == trigger_fires(*t, sym@, price, buy_side),
{
    t.stock_symbol == *sym && match t.trigger_price {
        Some(tp) => if buy_side {
            tp >= price
        } else {
            tp <= price
        },
        None => false,
    }
}

/// Atomically remove every standing order of `sym` that the update price
/// executes, returning the removed orders. Each order is matched and removed
/// exactly once.
fn standing_drain_fired(s: &mut Vec<StandingOrder>, sym: &String, price: u64, buy_side: bool) -> (
    fired: Vec<StandingOrder>
)
    requires
        standings_unique(old(s)@),
    ensures
        standings_unique(final(s)@),
        standings_unique(fired@),
        forall|v: Seq<char>, sy: Seq<char>| #![auto]
            standing_in(final(s)@, v, sy) == drained_kept(
                standing_in(old(s)@, v, sy),
                sym@,
                price,
                buy_side,
            ),
        forall|v: Seq<char>, sy: Seq<char>| #![auto]
            standing_in(fired@, v, sy) == drained_fired(
                standing_in(old(s)@, v, sy),
                sym@,
                price,
                buy_side,
            ),
        forall|k: int|
            0 <= k < fired@.len() ==> trigger_fires(#[trigger] fired@[k], sym@, price, buy_side)
                && standing_in(old(s)@, fired@[k].owner_id@, fired@[k].stock_symbol@) == Some(
                fired@[k],
            ),
{
    let mut kept: Vec<StandingOrder> = Vec::new();
    let mut fired: Vec<StandingOrder> = Vec::new();
    let mut k: usize = 0;
    while k < s.len()
        invariant
            s@ == old(s)@,
            standings_unique(s@),
            k <= s@.len(),
            standings_unique(kept@),
            standings_unique(fired@),
            forall|v: Seq<char>, sy: Seq<char>| #![auto]
                standing_in(kept@, v, sy) == drained_kept(
                    standing_in(s@.take(k as int), v, sy),
                    sym@,
                    price,
                    buy_side,
                ),
            forall|v: Seq<char>, sy: Seq<char>| #![auto]
                standing_in(fired@, v, sy) == drained_fired(
                    standing_in(s@.take(k as int), v, sy),
                    sym@,
                    price,
                    buy_side,
                ),
            forall|j: int|
                0 <= j < fired@.len() ==> trigger_fires(
                    #[trigger] fired@[j],
                    sym@,
                    price,
                    buy_side,
                ) && standing_in(s@, fired@[j].owner_id@, fired@[j].stock_symbol@) == Some(
                    fired@[j],
                ),
        decreases s@.len() - k,
    {
        let t = StandingOrder {
            owner_id: s[k].owner_id.clone(),
            stock_symbol: s[k].stock_symbol.clone(),
            amount: s[k].amount,
            trigger_price: s[k].trigger_price,
        };
        proof {
            assert(t == s@[k as int]);
            lemma_standing_at(s@, k as int);
            assert(!has_standing_in(s@.take(k as int), t.owner_id@, t.stock_symbol@)) by {
                if has_standing_in(s@.take(k as int), t.owner_id@, t.stock_symbol@) {
                    let j = choose|j: int|
                        0 <= j < s@.take(k as int).len() && s@.take(k as int)[j].owner_id@
                            == t.owner_id@ && s@.take(k as int)[j].stock_symbol@
                            == t.stock_symbol@;
                    assert(s@[j] == s@.take(k as int)[j]);
                }
            }
            assert(standings_unique(s@.take(k as int))) by {
                assert forall|a: int, b: int|
                    0 <= a < k && 0 <= b < k && a != b implies !(s@.take(k as int)[a].owner_id@
                    == s@.take(k as int)[b].owner_id@ && s@.take(k as int)[a].stock_symbol@
                    == s@.take(k as int)[b].stock_symbol@) by {
                    assert(s@.take(k as int)[a] == s@[a]);
                    assert(s@.take(k as int)[b] == s@[b]);
                }
            }
            assert(s@.take(k as int + 1) =~= s@.take(k as int).push(s@[k as int]));
            lemma_standing_push(s@.take(k as int), t);
            assert(standing_in(s@.take(k as int), t.owner_id@, t.stock_symbol@) is None);
            assert(standing_in(kept@, t.owner_id@, t.stock_symbol@) is None);
            assert(standing_in(fired@, t.owner_id@, t.stock_symbol@) is None);
            assert(!has_standing_in(kept@, t.owner_id@, t.stock_symbol@));
            assert(!has_standing_in(fired@, t.owner_id@, t.stock_symbol@));
        }
        let ghost kept0 = kept@;
        let ghost fired0 = fired@;
        if fires_exec(&t, sym, price, buy_side) {
            proof {
                lemma_standing_push(fired@, t);
            }
            fired.push(t);
            proof {
                assert forall|v: Seq<char>, sy: Seq<char>| #![auto]
                    standing_in(kept@, v, sy) == drained_kept(
                        standing_in(s@.take(k as int + 1), v, sy),
                        sym@,
                        price,
                        buy_side,
                    ) && standing_in(fired@, v, sy) == drained_fired(
                        standing_in(s@.take(k as int + 1), v, sy),
                        sym@,
                        price,
                        buy_side,
                    ) by {
                    assert(fired@ == fired0.push(t));
                    if v == t.owner_id@ && sy == t.stock_symbol@ {
                        assert(standing_in(s@.take(k as int + 1), v, sy) == Some(t));
                        assert(standing_in(fired0.push(t), v, sy) == Some(t));
                    } else {
                        assert(standing_in(s@.take(k as int + 1), v, sy) == standing_in(
                            s@.take(k as int),
                            v,
                            sy,
                        ));
                        assert(standing_in(fired0.push(t), v, sy) == standing_in(fired0, v, sy));
                    }
                }
            }
        } else {
            proof {
                lemma_standing_push(kept@, t);
            }
            kept.push(t);
            proof {
                assert forall|v: Seq<char>, sy: Seq<char>| #![auto]
                    standing_in(kept@, v, sy) == drained_kept(
                        standing_in(s@.take(k as int + 1), v, sy),
                        sym@,
                        price,
                        buy_side,
                    ) && standing_in(fired@, v, sy) == drained_fired(
                        standing_in(s@.take(k as int + 1), v, sy),
                        sym@,
                        price,
                        buy_side,
                    ) by {
                    assert(kept@ == kept0.push(t));
                    if v == t.owner_id@ && sy == t.stock_symbol@ {
                        assert(standing_in(s@.take(k as int + 1), v, sy) == Some(t));
                        assert(standing_in(kept0.push(t), v, sy) == Some(t));
                    } else {
                        assert(standing_in(s@.take(k as int + 1), v, sy) == standing_in(
                            s@.take(k as int),
                            v,
                            sy,
                        ));
                        assert(standing_in(kept0.push(t), v, sy) == standing_in(kept0, v, sy));
                    }
                }
            }
        }
        k += 1;
    }
    proof {
        assert(s@.take(s@.len() as int) =~= s@);
    }
    *s = kept;
    fired
}

impl Ledger {
    /// Reserve `amount_dollars` cents for a standing buy of `stock_symbol`,
    /// replacing any prior standing buy on that symbol. The prior
    /// reservation is refunded before the new amount is debited, so the
    /// refund can fund the replacement.
    pub fn set_buy_amount(
        &mut self,
        user_id: &String,
        stock_symbol: &String,
        amount_dollars: u64,
    ) -> (r: Result<AccountTransaction, TradeError>)
        requires
            old(self).wf(),
        ensures
            final(self).wf(),
            match r {
                Ok(tx) => set_buy_amount_ok(
                    *old(self),
                    *final(self),
                    user_id@,
                    stock_symbol@,
                    amount_dollars,
                    tx,
                ),
                Err(e) => {
                    &&& e == TradeError::InsufficientFunds
                    &&& match old(self).balance_of(user_id@) {
                        Some(b) => sat_add64(
                            b,
                            buy_trigger_refund(*old(self), user_id@, stock_symbol@),
                        ) < amount_dollars,
                        None => true,
                    }
                    &&& ledger_unchanged(*old(self), *final(self))
                },
            },
    {
        let refund: u64 = match standing_get(&self.buy_triggers, user_id, stock_symbol) {
            Some(t) => t.amount,
            None => 0,
        };
        let balance = match self.balance(user_id) {
            Some(b) => b,
            None => {
                return Err(TradeError::InsufficientFunds);
            },
        };
        if balance.saturating_add(refund) < amount_dollars {
            return Err(TradeError::InsufficientFunds);
        }
        standing_take(&mut self.buy_triggers, user_id, stock_symbol);
        acct_credit(&mut self.accounts, user_id, refund);
        let d = acct_debit(&mut self.accounts, user_id, amount_dollars);
        assert(d == Debit::Done);
        standing_put(
            &mut self.buy_triggers,
            StandingOrder {
                owner_id: user_id.clone(),
                stock_symbol: stock_symbol.clone(),
                amount: amount_dollars,
                trigger_price: None,
            },
        );
        Ok(AccountTransaction { cents: refund as i128 - amount_dollars as i128 })
    }

    /// Arm the user's standing buy of `stock_symbol` with a trigger price:
    /// the order executes once the quoted price falls to or below it.
    pub fn set_buy_trigger(&mut self, user_id: &String, stock_symbol: &String, trigger_price: u64)
        -> (r: Result<(), TradeError>)
        requires
            old(self).wf(),
        ensures
            final(self).wf(),
            match r {
                Ok(()) => {
                    &&& old(self).buy_trigger_of(user_id@, stock_symbol@) is Some
                    &&& final(self).buy_trigger_of(user_id@, stock_symbol@) matches Some(t1)
                        && armed(
                        old(self).buy_trigger_of(user_id@, stock_symbol@)->Some_0,
                        t1,
                        trigger_price,
                    )
                    &&& forall|v: Seq<char>, sy: Seq<char>|
                        !(v == user_id@ && sy == stock_symbol@) ==> final(self).buy_trigger_of(
                            v,
                            sy,
                        ) == old(self).buy_trigger_of(v, sy)
                    &&& final(self).accounts@ == old(self).accounts@
                    &&& final(self).holdings@ == old(self).holdings@
                    &&& final(self).queued_buys@ == old(self).queued_buys@
                    &&& final(self).queued_sells@ == old(self).queued_sells@
                    &&& final(self).sell_triggers@ == old(self).sell_triggers@
                },
                Err(e) => e == TradeError::NoStandingOrder && old(self).buy_trigger_of(
                    user_id@,
                    stock_symbol@,
                ) is None && ledger_unchanged(*old(self), *final(self)),
            },
    {
        if standing_set_price(&mut self.buy_triggers, user_id, stock_symbol, trigger_price) {
            Ok(())
        } else {
            Err(TradeError::NoStandingOrder)
        }
    }

    /// Delete the user's standing buy of `stock_symbol` and refund its
    /// reserved cents.
    pub fn cancel_set_buy(&mut self, user_id: &String, stock_symbol: &String) -> (r: Result<
        AccountTransaction,
        TradeError,
    >)
        requires
            old(self).wf(),
        ensures
            final(self).wf(),
            match r {
                Ok(tx) => {
                    let t = old(self).buy_trigger_of(user_id@, stock_symbol@)->Some_0;
                    &&& old(self).buy_trigger_of(user_id@, stock_symbol@) is Some
                    &&& final(self).buy_trigger_of(user_id@, stock_symbol@) is None
                    &&& forall|v: Seq<char>, sy: Seq<char>|
                        !(v == user_id@ && sy == stock_symbol@) ==> final(self).buy_trigger_of(
                            v,
                            sy,
                        ) == old(self).buy_trigger_of(v, sy)
                    &&& final(self).balance_of(user_id@) == credited(
                        old(self).balance_of(user_id@),
                        t.amount,
                    )
                    &&& forall|v: Seq<char>|
                        v != user_id@ ==> final(self).balance_of(v) == old(self).balance_of(v)
                    &&& final(self).holdings@ == old(self).holdings@
                    &&& final(self).queued_buys@ == old(self).queued_buys@
                    &&& final(self).queued_sells@ == old(self).queued_sells@
                    &&& final(self).sell_triggers@ == old(self).sell_triggers@
                    &&& tx.cents == t.amount
                },
                Err(e) => e == TradeError::NoStandingOrder && old(self).buy_trigger_of(
                    user_id@,
                    stock_symbol@,
                ) is None && ledger_unchanged(*old(self), *final(self)),
            },
    {
        let t = match standing_take(&mut self.buy_triggers, user_id, stock_symbol) {
            Some(t) => t,
            None => {
                return Err(TradeError::NoStandingOrder);
            },
        };
        acct_credit(&mut self.accounts, user_id, t.amount);
        Ok(AccountTransaction { cents: t.amount as i128 })
    }

    /// Reserve `amount_stock` shares for a standing sell of `stock_symbol`,
    /// replacing (and restocking) any prior standing sell on that symbol.
    pub fn set_sell_amount(&mut self, user_id: &String, stock_symbol: &String, amount_stock: u64)
        -> (r: Result<(), TradeError>)
        requires
            old(self).wf(),
        ensures
            final(self).wf(),
            match r {
                Ok(()) => set_sell_amount_ok(
                    *old(self),
                    *final(self),
                    user_id@,
                    stock_symbol@,
                    amount_stock,
                ),
                Err(e) => {
                    &&& e == TradeError::InsufficientShares
                    &&& match old(self).holding_of(user_id@, stock_symbol@) {
                        Some(h) => sat_add64(
                            h,
                            sell_trigger_restock(*old(self), user_id@, stock_symbol@),
                        ) < amount_stock,
                        None => true,
                    }
                    &&& ledger_unchanged(*old(self), *final(self))
                },
            },
    {
        let restock: u64 = match standing_get(&self.sell_triggers, user_id, stock_symbol) {
            Some(t) => t.amount,
            None => 0,
        };
        let held = match self.holding(user_id, stock_symbol) {
            Some(h) => h,
            None => {
                return Err(TradeError::InsufficientShares);
            },
        };
        if held.saturating_add(restock) < amount_stock {
            return Err(TradeError::InsufficientShares);
        }
        match standing_take(&mut self.sell_triggers, user_id, stock_symbol) {
            Some(t) => {
                holding_credit(&mut self.holdings, user_id, stock_symbol, t.amount);
            },
            None => (),
        }
        let d = holding_debit(&mut self.holdings, user_id, stock_symbol, amount_stock);
        assert(d == Debit::Done);
        standing_put(
            &mut self.sell_triggers,
            StandingOrder {
                owner_id: user_id.clone(),
                stock_symbol: stock_symbol.clone(),
                amount: amount_stock,
                trigger_price: None,
            },
        );
        Ok(())
    }

    /// Arm the user's standing sell of `stock_symbol` with a trigger price:
    /// the order executes once the quoted price rises to or above it.
    pub fn set_sell_trigger(&mut self, user_id: &String, stock_symbol: &String, trigger_price: u64)
        -> (r: Result<(), TradeError>)
        requires
            old(self).wf(),
        ensures
            final(self).wf(),
            match r {
                Ok(()) => {
                    &&& old(self).sell_trigger_of(user_id@, stock_symbol@) is Some
                    &&& final(self).sell_trigger_of(user_id@, stock_symbol@) matches Some(t1)
                        && armed(
                        old(self).sell_trigger_of(user_id@, stock_symbol@)->Some_0,
                        t1,
                        trigger_price,
                    )
                    &&& forall|v: Seq<char>, sy: Seq<char>|
                        !(v == user_id@ && sy == stock_symbol@) ==> final(self).sell_trigger_of(
                            v,
                            sy,
                        ) == old(self).sell_trigger_of(v, sy)
                    &&& final(self).accounts@ == old(self).accounts@
                    &&& final(self).holdings@ == old(self).holdings@
                    &&& final(self).queued_buys@ == old(self).queued_buys@
                    &&& final(self).queued_sells@ == old(self).queued_sells@
                    &&& final(self).buy_triggers@ == old(self).buy_triggers@
                },
                Err(e) => e == TradeError::NoStandingOrder && old(self).sell_trigger_of(
                    user_id@,
                    stock_symbol@,
                ) is None && ledger_unchanged(*old(self), *final(self)),
            },
    {
        if standing_set_price(&mut self.sell_triggers, user_id, stock_symbol, trigger_price) {
            Ok(())
        } else {
            Err(TradeError::NoStandingOrder)
        }
    }

    /// Delete the user's standing sell of `stock_symbol` and restock its
    /// reserved shares.
    pub fn cancel_set_sell(&mut self, user_id: &String, stock_symbol: &String) -> (r: Result<
        (),
        TradeError,
    >)
        requires
            old(self).wf(),
        ensures
            final(self).wf(),
            match r {
                Ok(()) => {
                    let t = old(self).sell_trigger_of(user_id@, stock_symbol@)->Some_0;
                    &&& old(self).sell_trigger_of(user_id@, stock_symbol@) is Some
                    &&& final(self).sell_trigger_of(user_id@, stock_symbol@) is None
                    &&& forall|v: Seq<char>, sy: Seq<char>|
                        !(v == user_id@ && sy == stock_symbol@) ==> final(self).sell_trigger_of(
                            v,
                            sy,
                        ) == old(self).sell_trigger_of(v, sy)
                    &&& final(self).holding_of(user_id@, stock_symbol@) == credited(
                        old(self).holding_of(user_id@, stock_symbol@),
                        t.amount,
                    )
                    &&& forall|v: Seq<char>, sy: Seq<char>|
                        !(v == user_id@ && sy == stock_symbol@) ==> final(self).holding_of(v, sy)
                            == old(self).holding_of(v, sy)
                    &&& final(self).accounts@ == old(self).accounts@
                    &&& final(self).queued_buys@ == old(self).queued_buys@
                    &&& final(self).queued_sells@ == old(self).queued_sells@
                    &&& final(self).buy_triggers@ == old(self).buy_triggers@
                },
                Err(e) => e == TradeError::NoStandingOrder && old(self).sell_trigger_of(
                    user_id@,
                    stock_symbol@,
                ) is None && ledger_unchanged(*old(self), *final(self)),
            },
    {
        let t = match standing_take(&mut self.sell_triggers, user_id, stock_symbol) {
            Some(t) => t,
            None => {
                return Err(TradeError::NoStandingOrder);
            },
        };
        holding_credit(&mut self.holdings, user_id, stock_symbol, t.amount);
        Ok(())
    }
}

impl Ledger {
    /// Execute every armed buy trigger of `stock_symbol` whose threshold is
    /// at or above the update price: each one is deleted and its owner's
    /// holding credited with the shares its reserved cents buy at this
    /// price. The reserved cash was debited when the trigger was set, so no
    /// balance moves. Returns the executed orders.
    pub fn check_buy_triggers(&mut self, stock_symbol: &String, price: u64) -> (fired: Vec<
        StandingOrder,
    >)
        requires
            old(self).wf(),
            price >= 1,
        ensures
            final(self).wf(),
            standings_unique(fired@),
            forall|v: Seq<char>, sy: Seq<char>| #![auto]
                final(self).buy_trigger_of(v, sy) == drained_kept(
                    old(self).buy_trigger_of(v, sy),
                    stock_symbol@,
                    price,
                    true,
                ),
            forall|v: Seq<char>, sy: Seq<char>| #![auto]
                standing_in(fired@, v, sy) == drained_fired(
                    old(self).buy_trigger_of(v, sy),
                    stock_symbol@,
                    price,
                    true,
                ),
            forall|v: Seq<char>, sy: Seq<char>| #![auto]
                final(self).holding_of(v, sy) == if sy == stock_symbol@ && drained_fired(
                    old(self).buy_trigger_of(v, sy),
                    stock_symbol@,
                    price,
                    true,
                ) is Some {
                    Some(
                        holding_upserted(
                            old(self).holding_of(v, sy),
                            (old(self).buy_trigger_of(v, sy)->Some_0.amount / price) as u64,
                        ),
                    )
                } else {
                    old(self).holding_of(v, sy)
                },
            buy_triggers_checked(*old(self), *final(self), fired@, stock_symbol@, price),
            final(self).accounts@ == old(self).accounts@,
            final(self).queued_buys@ == old(self).queued_buys@,
            final(self).queued_sells@ == old(self).queued_sells@,
            final(self).sell_triggers@ == old(self).sell_triggers@,
    {
        let fired = standing_drain_fired(&mut self.buy_triggers, stock_symbol, price, true);
        let ghost bt1 = self.buy_triggers@;
        let mut j: usize = 0;
        while j < fired.len()
            invariant
                price >= 1,
                holdings_unique(self.holdings@),
                self.buy_triggers@ == bt1,
                self.accounts@ == old(self).accounts@,
                self.queued_buys@ == old(self).queued_buys@,
                self.queued_sells@ == old(self).queued_sells@,
                self.sell_triggers@ == old(self).sell_triggers@,
                accounts_unique(self.accounts@),
                standings_unique(self.buy_triggers@),
                standings_unique(self.sell_triggers@),
                crate::ledger::orders_unique(self.queued_buys@),
                crate::ledger::orders_unique(self.queued_sells@),
                crate::ledger::orders_priced(self.queued_buys@),
                crate::ledger::orders_priced(self.queued_sells@),
                j <= fired@.len(),
                standings_unique(fired@),
                forall|kk: int|
                    0 <= kk < fired@.len() ==> trigger_fires(
                        #[trigger] fired@[kk],
                        stock_symbol@,
                        price,
                        true,
                    ),
                forall|v: Seq<char>, sy: Seq<char>| #![auto]
                    holding_in(self.holdings@, v, sy) == if sy == stock_symbol@ && standing_in(
                        fired@.take(j as int),
                        v,
                        sy,
                    ) is Some {
                        Some(
                            holding_upserted(
                                holding_in(old(self).holdings@, v, sy),
                                (standing_in(fired@.take(j as int), v, sy)->Some_0.amount
                                    / price) as u64,
                            ),
                        )
                    } else {
                        holding_in(old(self).holdings@, v, sy)
                    },
            decreases fired@.len() - j,
        {
            let ghost h0 = self.holdings@;
            proof {
                lemma_standing_at(fired@, j as int);
                assert(standings_unique(fired@.take(j as int))) by {
                    assert forall|a: int, b: int|
                        0 <= a < j && 0 <= b < j && a != b implies !(fired@.take(
                        j as int,
                    )[a].owner_id@ == fired@.take(j as int)[b].owner_id@ && fired@.take(
                        j as int,
                    )[a].stock_symbol@ == fired@.take(j as int)[b].stock_symbol@) by {
                        assert(fired@.take(j as int)[a] == fired@[a]);
                        assert(fired@.take(j as int)[b] == fired@[b]);
                    }
                }
                assert(!has_standing_in(
                    fired@.take(j as int),
                    fired@[j as int].owner_id@,
                    fired@[j as int].stock_symbol@,
                )) by {
                    if has_standing_in(
                        fired@.take(j as int),
                        fired@[j as int].owner_id@,
                        fired@[j as int].stock_symbol@,
                    ) {
                        let a = choose|a: int|
                            0 <= a < fired@.take(j as int).len() && fired@.take(
                                j as int,
                            )[a].owner_id@ == fired@[j as int].owner_id@ && fired@.take(
                                j as int,
                            )[a].stock_symbol@ == fired@[j as int].stock_symbol@;
                        assert(fired@[a] == fired@.take(j as int)[a]);
                    }
                }
                assert(fired@.take(j as int + 1) =~= fired@.take(j as int).push(fired@[j as int]));
                lemma_standing_push(fired@.take(j as int), fired@[j as int]);
            }
            let shares = fired[j].amount / price;
            holding_upsert_credit(&mut self.holdings, &fired[j].owner_id, stock_symbol, shares);
            proof {
                assert forall|v: Seq<char>, sy: Seq<char>| #![auto]
                    holding_in(self.holdings@, v, sy) == (if sy == stock_symbol@ && standing_in(
                        fired@.take(j as int + 1),
                        v,
                        sy,
                    ) is Some {
                        Some(
                            holding_upserted(
                                holding_in(old(self).holdings@, v, sy),
                                (standing_in(fired@.take(j as int + 1), v, sy)->Some_0.amount
                                    / price) as u64,
                            ),
                        )
                    } else {
                        holding_in(old(self).holdings@, v, sy)
                    }) by {
                    let t = fired@[j as int];
                    if v == t.owner_id@ && sy == t.stock_symbol@ {
                        assert(standing_in(fired@.take(j as int).push(t), v, sy) == Some(t));
                        assert(standing_in(fired@.take(j as int), v, sy) is None);
                        assert(holding_in(h0, v, sy) == holding_in(old(self).holdings@, v, sy));
                    } else {
                        assert(standing_in(fired@.take(j as int).push(t), v, sy) == standing_in(
                            fired@.take(j as int),
                            v,
                            sy,
                        ));
                        if !(v == t.owner_id@ && sy == stock_symbol@) {
                            assert(holding_in(self.holdings@, v, sy) == holding_in(h0, v, sy));
                        }
                    }
                }
            }
            j += 1;
        }
        proof {
            assert(fired@.take(fired@.len() as int) =~= fired@);
        }
        fired
    }

    /// Execute every armed sell trigger of `stock_symbol` whose threshold is
    /// at or below the update price: each one is deleted and its owner's
    /// balance credited with the reserved shares valued at this price. The
    /// shares were debited when the trigger was set, so no holding moves.
    /// Returns the executed orders.
    pub fn check_sell_triggers(&mut self, stock_symbol: &String, price: u64) -> (fired: Vec<
        StandingOrder,
    >)
        requires
            old(self).wf(),
            price >= 1,
        ensures
            final(self).wf(),
            standings_unique(fired@),
            forall|v: Seq<char>, sy: Seq<char>| #![auto]
                final(self).sell_trigger_of(v, sy) == drained_kept(
                    old(self).sell_trigger_of(v, sy),
                    stock_symbol@,
                    price,
                    false,
                ),
            forall|v: Seq<char>, sy: Seq<char>| #![auto]
                standing_in(fired@, v, sy) == drained_fired(
                    old(self).sell_trigger_of(v, sy),
                    stock_symbol@,
                    price,
                    false,
                ),
            forall|v: Seq<char>| #![auto]
                final(self).balance_of(v) == if drained_fired(
                    old(self).sell_trigger_of(v, stock_symbol@),
                    stock_symbol@,
                    price,
                    false,
                ) is Some {
                    credited(
                        old(self).balance_of(v),
                        sat_mul64(
                            old(self).sell_trigger_of(v, stock_symbol@)->Some_0.amount,
                            price,
                        ),
                    )
                } else {
                    old(self).balance_of(v)
                },
            sell_triggers_checked(*old(self), *final(self), fired@, stock_symbol@, price),
            final(self).holdings@ == old(self).holdings@,
            final(self).queued_buys@ == old(self).queued_buys@,
            final(self).queued_sells@ == old(self).queued_sells@,
            final(self).buy_triggers@ == old(self).buy_triggers@,
    {
        let fired = standing_drain_fired(&mut self.sell_triggers, stock_symbol, price, false);
        let ghost st1 = self.sell_triggers@;
        let mut j: usize = 0;
        while j < fired.len()
            invariant
                price >= 1,
                accounts_unique(self.accounts@),
                self.sell_triggers@ == st1,
                self.holdings@ == old(self).holdings@,
                self.queued_buys@ == old(self).queued_buys@,
                self.queued_sells@ == old(self).queued_sells@,
                self.buy_triggers@ == old(self).buy_triggers@,
                holdings_unique(self.holdings@),
                standings_unique(self.buy_triggers@),
                standings_unique(self.sell_triggers@),
                crate::ledger::orders_unique(self.queued_buys@),
                crate::ledger::orders_unique(self.queued_sells@),
                crate::ledger::orders_priced(self.queued_buys@),
                crate::ledger::orders_priced(self.queued_sells@),
                j <= fired@.len(),
                standings_unique(fired@),
                forall|kk: int|
                    0 <= kk < fired@.len() ==> trigger_fires(
                        #[trigger] fired@[kk],
                        stock_symbol@,
                        price,
                        false,
                    ),
                forall|v: Seq<char>| #![auto]
                    balance_in(self.accounts@, v) == if standing_in(
                        fired@.take(j as int),
                        v,
                        stock_symbol@,
                    ) is Some {
                        credited(
                            balance_in(old(self).accounts@, v),
                            sat_mul64(
                                standing_in(fired@.take(j as int), v, stock_symbol@)->Some_0.amount,
                                price,
                            ),
                        )
                    } else {
                        balance_in(old(self).accounts@, v)
                    },
            decreases fired@.len() - j,
        {
            let ghost a0 = self.accounts@;
            proof {
                lemma_standing_at(fired@, j as int);
                assert(standings_unique(fired@.take(j as int))) by {
                    assert forall|a: int, b: int|
                        0 <= a < j && 0 <= b < j && a != b implies !(fired@.take(
                        j as int,
                    )[a].owner_id@ == fired@.take(j as int)[b].owner_id@ && fired@.take(
                        j as int,
                    )[a].stock_symbol@ == fired@.take(j as int)[b].stock_symbol@) by {
                        assert(fired@.take(j as int)[a] == fired@[a]);
                        assert(fired@.take(j as int)[b] == fired@[b]);
                    }
                }
                assert(!has_standing_in(
                    fired@.take(j as int),
                    fired@[j as int].owner_id@,
                    fired@[j as int].stock_symbol@,
                )) by {
                    if has_standing_in(
                        fired@.take(j as int),
                        fired@[j as int].owner_id@,
                        fired@[j as int].stock_symbol@,
                    ) {
                        let a = choose|a: int|
                            0 <= a < fired@.take(j as int).len() && fired@.take(
                                j as int,
                            )[a].owner_id@ == fired@[j as int].owner_id@ && fired@.take(
                                j as int,
                            )[a].stock_symbol@ == fired@[j as int].stock_symbol@;
                        assert(fired@[a] == fired@.take(j as int)[a]);
                    }
                }
                assert(fired@.take(j as int + 1) =~= fired@.take(j as int).push(fired@[j as int]));
                lemma_standing_push(fired@.take(j as int), fired@[j as int]);
            }
            let value = match fired[j].amount.checked_mul(price) {
                Some(m) => m,
                None => u64::MAX,
            };
            acct_credit(&mut self.accounts, &fired[j].owner_id, value);
            proof {
                assert forall|v: Seq<char>| #![auto]
                    balance_in(self.accounts@, v) == (if standing_in(
                        fired@.take(j as int + 1),
                        v,
                        stock_symbol@,
                    ) is Some {
                        credited(
                            balance_in(old(self).accounts@, v),
                            sat_mul64(
                                standing_in(
                                    fired@.take(j as int + 1),
                                    v,
                                    stock_symbol@,
                                )->Some_0.amount,
                                price,
                            ),
                        )
                    } else {
                        balance_in(old(self).accounts@, v)
                    }) by {
                    let t = fired@[j as int];
                    if v == t.owner_id@ {
                        assert(standing_in(fired@.take(j as int).push(t), v, stock_symbol@)
                            == Some(t));
                        assert(standing_in(fired@.take(j as int), v, stock_symbol@) is None);
                        assert(balance_in(a0, v) == balance_in(old(self).accounts@, v));
                    } else {
                        assert(standing_in(fired@.take(j as int).push(t), v, stock_symbol@)
                            == standing_in(fired@.take(j as int), v, stock_symbol@));
                        assert(balance_in(self.accounts@, v) == balance_in(a0, v));
                    }
                }
            }
            j += 1;
        }
        proof {
            assert(fired@.take(fired@.len() as int) =~= fired@);
        }
        fired
    }

    /// Consume one price update: run the buy-side and sell-side trigger
    /// checks for the symbol. Every armed trigger whose threshold the price
    /// crossed is executed exactly once; the two checks touch disjoint state.
    pub fn on_price_update(&mut self, stock_symbol: &String, price: u64) -> (fired: (
        Vec<StandingOrder>,
        Vec<StandingOrder>,
    ))
        requires
            old(self).wf(),
            price >= 1,
        ensures
            final(self).wf(),
            standings_unique(fired.0@),
            standings_unique(fired.1@),
            forall|v: Seq<char>, sy: Seq<char>| #![auto]
                final(self).buy_trigger_of(v, sy) == drained_kept(
                    old(self).buy_trigger_of(v, sy),
                    stock_symbol@,
                    price,
                    true,
                ),
            forall|v: Seq<char>, sy: Seq<char>| #![auto]
                standing_in(fired.0@, v, sy) == drained_fired(
                    old(self).buy_trigger_of(v, sy),
                    stock_symbol@,
                    price,
                    true,
                ),
            forall|v: Seq<char>, sy: Seq<char>| #![auto]
                final(self).holding_of(v, sy) == if sy == stock_symbol@ && drained_fired(
                    old(self).buy_trigger_of(v, sy),
                    stock_symbol@,
                    price,
                    true,
                ) is Some {
                    Some(
                        holding_upserted(
                            old(self).holding_of(v, sy),
                            (old(self).buy_trigger_of(v, sy)->Some_0.amount / price) as u64,
                        ),
                    )
                } else {
                    old(self).holding_of(v, sy)
                },
            forall|v: Seq<char>, sy: Seq<char>| #![auto]
                final(self).sell_trigger_of(v, sy) == drained_kept(
                    old(self).sell_trigger_of(v, sy),
                    stock_symbol@,
                    price,
                    false,
                ),
            forall|v: Seq<char>, sy: Seq<char>| #![auto]
                standing_in(fired.1@, v, sy) == drained_fired(
                    old(self).sell_trigger_of(v, sy),
                    stock_symbol@,
                    price,
                    false,
                ),
            forall|v: Seq<char>| #![auto]
                final(self).balance_of(v) == if drained_fired(
                    old(self).sell_trigger_of(v, stock_symbol@),
                    stock_symbol@,
                    price,
                    false,
                ) is Some {
                    credited(
                        old(self).balance_of(v),
                        sat_mul64(
                            old(self).sell_trigger_of(v, stock_symbol@)->Some_0.amount,
                            price,
                        ),
                    )
                } else {
                    old(self).balance_of(v)
                },
            buy_triggers_checked(*old(self), *final(self), fired.0@, stock_symbol@, price),
            sell_triggers_checked(*old(self), *final(self), fired.1@, stock_symbol@, price),
            final(self).queued_buys@ == old(self).queued_buys@,
            final(self).queued_sells@ == old(self).queued_sells@,
    {
        let fired_buys = self.check_buy_triggers(stock_symbol, price);
        let ghost mid = *self;
        let fired_sells = self.check_sell_triggers(stock_symbol, price);
        proof {
            assert forall|v: Seq<char>, sy: Seq<char>| #![auto]
                self.buy_trigger_of(v, sy) == drained_kept(
                    old(self).buy_trigger_of(v, sy),
                    stock_symbol@,
                    price,
                    true,
                ) by {
                assert(mid.buy_trigger_of(v, sy) == drained_kept(
                    old(self).buy_trigger_of(v, sy),
                    stock_symbol@,
                    price,
                    true,
                ));
                assert(self.buy_triggers@ == mid.buy_triggers@);
                assert(self.buy_trigger_of(v, sy) == standing_in(mid.buy_triggers@, v, sy));
            }
            assert forall|v: Seq<char>, sy: Seq<char>| #![auto]
                self.holding_of(v, sy) == if sy == stock_symbol@ && drained_fired(
                    old(self).buy_trigger_of(v, sy),
                    stock_symbol@,
                    price,
                    true,
                ) is Some {
                    Some(
                        holding_upserted(
                            old(self).holding_of(v, sy),
                            (old(self).buy_trigger_of(v, sy)->Some_0.amount / price) as u64,
                        ),
                    )
                } else {
                    old(self).holding_of(v, sy)
                } by {
                assert(mid.holding_of(v, sy) == if sy == stock_symbol@ && drained_fired(
                    old(self).buy_trigger_of(v, sy),
                    stock_symbol@,
                    price,
                    true,
                ) is Some {
                    Some(
                        holding_upserted(
                            old(self).holding_of(v, sy),
                            (old(self).buy_trigger_of(v, sy)->Some_0.amount / price) as u64,
                        ),
                    )
                } else {
                    old(self).holding_of(v, sy)
                });
                assert(self.holdings@ == mid.holdings@);
                assert(self.holding_of(v, sy) == holding_in(mid.holdings@, v, sy));
            }
        }
        (fired_buys, fired_sells)
    }
}

} // verus!
