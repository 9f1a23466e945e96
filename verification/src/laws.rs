//! Properties of the engine that span more than one operation, proved from
//! the operations' contracts alone.
//!
//! Each lemma's hypotheses are the named transition predicates that the
//! engine's operations ensure, so every lemma applies to any sequence of
//! real calls.

use vstd::prelude::*;

use crate::ledger::{sat_add64, Ledger, StandingOrder};
use crate::orders::{
    buy_refund, buy_reverted, init_buy_ok, init_sell_ok, sell_restock, sell_reverted,
    AccountTransaction,
};
use crate::triggers::{buy_triggers_checked, drained_fired, holding_upserted, trigger_fires};

verus! {

/// No negative balance: balances are natural numbers in every ledger, and
/// the operation that debits cash — queuing a buy — only goes through when
/// the balance, after refunding any replaced reservation, covers the debit.
/// The new balance is exactly the difference, so it never falls below zero.
pub proof fn lemma_no_negative_balance(
    l0: Ledger,
    l1: Ledger,
    u: Seq<char>,
    sym: Seq<char>,
    price: u64,
    amount: u64,
    now: u64,
    tx: AccountTransaction,
)
    requires
        init_buy_ok(l0, l1, u, sym, price, amount, now, tx),
    ensures
        sat_add64(l0.balance_of(u)->Some_0, buy_refund(l0, u)) >= amount,
        l1.balance_of(u) == Some(
            (sat_add64(l0.balance_of(u)->Some_0, buy_refund(l0, u)) - amount) as u64,
        ),
        l1.balance_of(u)->Some_0 >= 0,
{
}

/// No negative holdings: share amounts are natural numbers, and the
/// operation that debits shares — queuing a sell — only goes through when
/// the holding, after restocking any replaced reservation, covers the
/// shares sold. The new holding is exactly the difference.
pub proof fn lemma_no_negative_holdings(
    l0: Ledger,
    l1: Ledger,
    u: Seq<char>,
    sym: Seq<char>,
    price: u64,
    amount: u64,
    now: u64,
)
    requires
        init_sell_ok(l0, l1, u, sym, price, amount, now),
        price >= 1,
    ensures
        sat_add64(l0.holding_of(u, sym)->Some_0, sell_restock(l0, u, sym)) >= amount / price,
        l1.holding_of(u, sym) == Some(
            (sat_add64(l0.holding_of(u, sym)->Some_0, sell_restock(l0, u, sym)) - amount
                / price) as u64,
        ),
        l1.holding_of(u, sym)->Some_0 >= 0,
{
}

/// At most one pending order per kind per user: in any well-formed ledger a
/// user has at most one queued buy and at most one queued sell row, and
/// after a buy the user's single pending buy is the one that call queued.
pub proof fn lemma_single_pending_order(
    l0: Ledger,
    l1: Ledger,
    u: Seq<char>,
    sym: Seq<char>,
    price: u64,
    amount: u64,
    now: u64,
    tx: AccountTransaction,
)
    requires
        l1.wf(),
        init_buy_ok(l0, l1, u, sym, price, amount, now, tx),
    ensures
        forall|i: int, j: int|
            0 <= i < l1.queued_buys@.len() && 0 <= j < l1.queued_buys@.len()
                && l1.queued_buys@[i].user_id@ == u && l1.queued_buys@[j].user_id@ == u ==> i == j,
        forall|i: int, j: int|
            0 <= i < l1.queued_sells@.len() && 0 <= j < l1.queued_sells@.len()
                && l1.queued_sells@[i].user_id@ == u && l1.queued_sells@[j].user_id@ == u ==> i
                == j,
        l1.queued_buy_of(u) matches Some(o) && o.stock_symbol@ == sym && o.quoted_price == price
            && o.amount_dollars == amount && o.time_created == now,
{
}

/// Replace-refunds: buying twice with no commit or cancel in between leaves
/// the balance as if only the second buy had happened — the first
/// reservation was refunded in full when it was replaced.
pub proof fn lemma_replace_refunds(
    l0: Ledger,
    l1: Ledger,
    l2: Ledger,
    u: Seq<char>,
    sym1: Seq<char>,
    price1: u64,
    amount1: u64,
    now1: u64,
    tx1: AccountTransaction,
    sym2: Seq<char>,
    price2: u64,
    amount2: u64,
    now2: u64,
    tx2: AccountTransaction,
)
    requires
        l0.queued_buy_of(u) is None,
        init_buy_ok(l0, l1, u, sym1, price1, amount1, now1, tx1),
        init_buy_ok(l1, l2, u, sym2, price2, amount2, now2, tx2),
    ensures
        l2.balance_of(u) == Some((l0.balance_of(u)->Some_0 - amount2) as u64),
        l0.balance_of(u)->Some_0 >= amount2,
{
    let b0 = l0.balance_of(u)->Some_0;
    assert(buy_refund(l0, u) == 0);
    assert(sat_add64(b0, 0) == b0);
    let b1 = l1.balance_of(u)->Some_0;
    assert(b1 == b0 - amount1);
    assert(buy_refund(l1, u) == amount1);
    assert(sat_add64(b1, amount1) == b0);
}

/// Expiry is sticky but reversible: a buy that is committed only after its
/// validity window has passed is reversed — the balance returns to its
/// value before the buy, the pending order is gone, and no holding is
/// created.
pub proof fn lemma_expiry_reverts_buy(
    l0: Ledger,
    l1: Ledger,
    l2: Ledger,
    u: Seq<char>,
    sym: Seq<char>,
    price: u64,
    amount: u64,
    now: u64,
    tx: AccountTransaction,
)
    requires
        l0.queued_buy_of(u) is None,
        l0.holding_of(u, sym) is None,
        init_buy_ok(l0, l1, u, sym, price, amount, now, tx),
        buy_reverted(l1, l2, u),
    ensures
        l2.balance_of(u) == l0.balance_of(u),
        l2.holding_of(u, sym) is None,
        l2.queued_buy_of(u) is None,
{
    let b0 = l0.balance_of(u)->Some_0;
    assert(buy_refund(l0, u) == 0);
    assert(sat_add64(b0, 0) == b0);
    let b1 = l1.balance_of(u)->Some_0;
    assert(b1 == b0 - amount);
    assert(l1.queued_buy_of(u)->Some_0.amount_dollars == amount);
    assert(sat_add64(b1, amount) == b0);
    assert(l1.holding_of(u, sym) == l0.holding_of(u, sym));
    assert(l2.holding_of(u, sym) == l1.holding_of(u, sym));
}

/// Trigger correctness: a price update at or below an armed buy trigger's
/// threshold deletes the trigger and credits its owner's holding with the
/// shares the reserved cents buy at the update price; an update above the
/// threshold leaves the trigger and the holding untouched.
pub proof fn lemma_trigger_correctness(
    l0: Ledger,
    l1: Ledger,
    fired: Seq<StandingOrder>,
    u: Seq<char>,
    sym: Seq<char>,
    price: u64,
    threshold: u64,
)
    requires
        buy_triggers_checked(l0, l1, fired, sym, price),
        l0.buy_trigger_of(u, sym) matches Some(t) && t.trigger_price == Some(threshold),
    ensures
        price <= threshold ==> {
            &&& l1.buy_trigger_of(u, sym) is None
            &&& l1.holding_of(u, sym) == Some(
                holding_upserted(
                    l0.holding_of(u, sym),
                    (l0.buy_trigger_of(u, sym)->Some_0.amount / price) as u64,
                ),
            )
        },
        price > threshold ==> {
            &&& l1.buy_trigger_of(u, sym) == l0.buy_trigger_of(u, sym)
            &&& l1.holding_of(u, sym) == l0.holding_of(u, sym)
        },
{
    let t = l0.buy_trigger_of(u, sym)->Some_0;
    assert(t.owner_id@ == u && t.stock_symbol@ == sym) by {
        let s = l0.buy_triggers@;
        assert(crate::ledger::has_standing_in(s, u, sym));
        let i = crate::ledger::standing_index_in(s, u, sym);
        assert(s[i].owner_id@ == u && s[i].stock_symbol@ == sym);
    }
    if price <= threshold {
        assert(trigger_fires(t, sym, price, true));
        assert(drained_fired(l0.buy_trigger_of(u, sym), sym, price, true) is Some);
    } else {
        assert(!trigger_fires(t, sym, price, true));
    }
}


/// The sell-side mirror of the expiry law: a sell that is committed only
/// after its validity window has passed is reversed — the shares return to
/// the holding they were reserved from and no cash is credited.
pub proof fn lemma_expiry_reverts_sell(
    l0: Ledger,
    l1: Ledger,
    l2: Ledger,
    u: Seq<char>,
    sym: Seq<char>,
    price: u64,
    amount: u64,
    now: u64,
)
    requires
        l0.queued_sell_of(u) is None,
        init_sell_ok(l0, l1, u, sym, price, amount, now),
        sell_reverted(l1, l2, u, false),
        price >= 1,
    ensures
        l2.holding_of(u, sym) == l0.holding_of(u, sym),
        l2.balance_of(u) == l0.balance_of(u),
        l2.queued_sell_of(u) is None,
{
    let h0 = l0.holding_of(u, sym)->Some_0;
    assert(sell_restock(l0, u, sym) == 0);
    assert(sat_add64(h0, 0) == h0);
    let o = l1.queued_sell_of(u)->Some_0;
    assert(o.stock_symbol@ == sym && o.quoted_price == price && o.amount_dollars == amount);
    let shares = (amount / price) as u64;
    assert(o.spec_shares() == shares);
    assert(l1.holding_of(u, sym) == Some((h0 - shares) as u64));
    assert(sat_add64((h0 - shares) as u64, shares) == h0);
}

} // verus!
