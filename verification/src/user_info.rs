//! The account summary a user sees: balance, positions, and the armed
//! standing orders on both sides.

use vstd::prelude::*;

use crate::ledger::{
    has_holding_in, holding_in, holdings_unique, lemma_holding_push, lemma_standing_push,
    standing_in, standings_unique, Holding, Ledger, StandingOrder,
};

verus! {

/// One user's view of the ledger: the cash balance, every holding row, and
/// the standing orders that have a trigger price set.
pub struct UserInfo {
    pub balance: u64,
    pub stock: Vec<Holding>,
    pub buy_triggers: Vec<StandingOrder>,
    pub sell_triggers: Vec<StandingOrder>,
}

/// Collect the user's holding rows, in ledger order.
fn collect_holdings(s: &Vec<Holding>, user: &String) -> (r: Vec<Holding>)
    requires
        holdings_unique(s@),
    ensures
        holdings_unique(r@),
        forall|v: Seq<char>, sy: Seq<char>| #![auto]
            holding_in(r@, v, sy) == if v == user@ {
                holding_in(s@, v, sy)
            } else {
                None::<u64>
            },
{
    let mut out: Vec<Holding> = Vec::new();
    let mut k: usize = 0;
    while k < s.len()
        invariant
            holdings_unique(s@),
            k <= s@.len(),
            holdings_unique(out@),
            forall|v: Seq<char>, sy: Seq<char>| #![auto]
                holding_in(out@, v, sy) == if v == user@ {
                    holding_in(s@.take(k as int), v, sy)
                } else {
                    None::<u64>
                },
        decreases s@.len() - k,
    {
        let row = &s[k];
        proof {
            crate::ledger::lemma_holding_at(s@, k as int);
            assert(holdings_unique(s@.take(k as int))) by {
                assert forall|a: int, b: int|
                    0 <= a < k && 0 <= b < k && a != b implies !(s@.take(k as int)[a].owner_id@
                    == s@.take(k as int)[b].owner_id@ && s@.take(k as int)[a].stock_symbol@
                    == s@.take(k as int)[b].stock_symbol@) by {
                    assert(s@.take(k as int)[a] == s@[a]);
                    assert(s@.take(k as int)[b] == s@[b]);
                }
            }
            assert(!has_holding_in(s@.take(k as int), s@[k as int].owner_id@, s@[k as int].stock_symbol@))
                by {
                if has_holding_in(
                    s@.take(k as int),
                    s@[k as int].owner_id@,
                    s@[k as int].stock_symbol@,
                ) {
                    let j = choose|j: int|
                        0 <= j < s@.take(k as int).len() && s@.take(k as int)[j].owner_id@
                            == s@[k as int].owner_id@ && s@.take(k as int)[j].stock_symbol@
                            == s@[k as int].stock_symbol@;
                    assert(s@[j] == s@.take(k as int)[j]);
                }
            }
            assert(s@.take(k as int + 1) =~= s@.take(k as int).push(s@[k as int]));
            lemma_holding_push(s@.take(k as int), s@[k as int]);
        }
        let ghost out0 = out@;
        let ghost trow = s@[k as int];
        if row.owner_id == *user {
            let copy = Holding {
                owner_id: row.owner_id.clone(),
                stock_symbol: row.stock_symbol.clone(),
                amount: row.amount,
            };
            proof {
                assert(copy == s@[k as int]);
                assert(holding_in(out@, copy.owner_id@, copy.stock_symbol@) is None);
                assert(!has_holding_in(out@, copy.owner_id@, copy.stock_symbol@));
                lemma_holding_push(out@, copy);
            }
            out.push(copy);
            proof {
                assert forall|v: Seq<char>, sy: Seq<char>| #![auto]
                    holding_in(out@, v, sy) == (if v == user@ {
                        holding_in(s@.take(k as int + 1), v, sy)
                    } else {
                        None::<u64>
                    }) by {
                    assert(out@ == out0.push(trow));
                    if v == trow.owner_id@ && sy == trow.stock_symbol@ {
                        assert(holding_in(s@.take(k as int).push(trow), v, sy) == Some(
                            trow.amount,
                        ));
                        assert(holding_in(out0.push(trow), v, sy) == Some(trow.amount));
                    } else {
                        assert(holding_in(s@.take(k as int).push(trow), v, sy) == holding_in(
                            s@.take(k as int),
                            v,
                            sy,
                        ));
                        assert(holding_in(out0.push(trow), v, sy) == holding_in(out0, v, sy));
                    }
                }
            }
        } else {
            proof {
                assert forall|v: Seq<char>, sy: Seq<char>| #![auto]
                    holding_in(out@, v, sy) == (if v == user@ {
                        holding_in(s@.take(k as int + 1), v, sy)
                    } else {
                        None::<u64>
                    }) by {
                    if v == trow.owner_id@ && sy == trow.stock_symbol@ {
                        assert(v != user@);
                    } else {
                        assert(holding_in(s@.take(k as int).push(trow), v, sy) == holding_in(
                            s@.take(k as int),
                            v,
                            sy,
                        ));
                    }
                }
            }
        }
        k += 1;
    }
    proof {
        assert(s@.take(s@.len() as int) =~= s@);
    }
    out
}

/// Collect the user's standing orders that are armed with a trigger price,
/// in ledger order.
fn collect_armed(s: &Vec<StandingOrder>, user: &String) -> (r: Vec<StandingOrder>)
    requires
        standings_unique(s@),
    ensures
        standings_unique(r@),
        forall|v: Seq<char>, sy: Seq<char>| #![auto]
            standing_in(r@, v, sy) == (match standing_in(s@, v, sy) {
                Some(t) => if v == user@ && t.trigger_price is Some {
                    Some(t)
                } else {
                    None
                },
                None => None,
            }),
{
    let mut out: Vec<StandingOrder> = Vec::new();
    let mut k: usize = 0;
    while k < s.len()
        invariant
            standings_unique(s@),
            k <= s@.len(),
            standings_unique(out@),
            forall|v: Seq<char>, sy: Seq<char>| #![auto]
                standing_in(out@, v, sy) == (match standing_in(s@.take(k as int), v, sy) {
                    Some(t) => if v == user@ && t.trigger_price is Some {
                        Some(t)
                    } else {
                        None
                    },
                    None => None,
                }),
        decreases s@.len() - k,
    {
        let row = &s[k];
        proof {
            crate::ledger::lemma_standing_at(s@, k as int);
            assert(standings_unique(s@.take(k as int))) by {
                assert forall|a: int, b: int|
                    0 <= a < k && 0 <= b < k && a != b implies !(s@.take(k as int)[a].owner_id@
                    == s@.take(k as int)[b].owner_id@ && s@.take(k as int)[a].stock_symbol@
                    == s@.take(k as int)[b].stock_symbol@) by {
                    assert(s@.take(k as int)[a] == s@[a]);
                    assert(s@.take(k as int)[b] == s@[b]);
                }
            }
            assert(!crate::ledger::has_standing_in(
                s@.take(k as int),
                s@[k as int].owner_id@,
                s@[k as int].stock_symbol@,
            )) by {
                if crate::ledger::has_standing_in(
                    s@.take(k as int),
                    s@[k as int].owner_id@,
                    s@[k as int].stock_symbol@,
                ) {
                    let j = choose|j: int|
                        0 <= j < s@.take(k as int).len() && s@.take(k as int)[j].owner_id@
                            == s@[k as int].owner_id@ && s@.take(k as int)[j].stock_symbol@
                            == s@[k as int].stock_symbol@;
                    assert(s@[j] == s@.take(k as int)[j]);
                }
            }
            assert(s@.take(k as int + 1) =~= s@.take(k as int).push(s@[k as int]));
            lemma_standing_push(s@.take(k as int), s@[k as int]);
        }
        let armed = match row.trigger_price {
            Some(_) => true,
            None => false,
        };
        let ghost out0 = out@;
        let ghost trow = s@[k as int];
        if row.owner_id == *user && armed {
            let copy = StandingOrder {
                owner_id: row.owner_id.clone(),
                stock_symbol: row.stock_symbol.clone(),
                amount: row.amount,
                trigger_price: row.trigger_price,
            };
            proof {
                assert(copy == s@[k as int]);
                assert(standing_in(out@, copy.owner_id@, copy.stock_symbol@) is None);
                assert(!crate::ledger::has_standing_in(out@, copy.owner_id@, copy.stock_symbol@));
                lemma_standing_push(out@, copy);
            }
            out.push(copy);
            proof {
                assert forall|v: Seq<char>, sy: Seq<char>| #![auto]
                    standing_in(out@, v, sy) == (match standing_in(s@.take(k as int + 1), v, sy) {
                        Some(t) => if v == user@ && t.trigger_price is Some {
                            Some(t)
                        } else {
                            None
                        },
                        None => None,
                    }) by {
                    assert(out@ == out0.push(trow));
                    if v == trow.owner_id@ && sy == trow.stock_symbol@ {
                        assert(standing_in(s@.take(k as int).push(trow), v, sy) == Some(trow));
                        assert(standing_in(out0.push(trow), v, sy) == Some(trow));
                    } else {
                        assert(standing_in(s@.take(k as int).push(trow), v, sy) == standing_in(
                            s@.take(k as int),
                            v,
                            sy,
                        ));
                        assert(standing_in(out0.push(trow), v, sy) == standing_in(out0, v, sy));
                    }
                }
            }
        } else {
            proof {
                assert forall|v: Seq<char>, sy: Seq<char>| #![auto]
                    standing_in(out@, v, sy) == (match standing_in(s@.take(k as int + 1), v, sy) {
                        Some(t) => if v == user@ && t.trigger_price is Some {
                            Some(t)
                        } else {
                            None
                        },
                        None => None,
                    }) by {
                    if v == trow.owner_id@ && sy == trow.stock_symbol@ {
                        assert(standing_in(s@.take(k as int).push(trow), v, sy) == Some(trow));
                        assert(standing_in(out@, v, sy) is None);
                    } else {
                        assert(standing_in(s@.take(k as int).push(trow), v, sy) == standing_in(
                            s@.take(k as int),
                            v,
                            sy,
                        ));
                    }
                }
            }
        }
        k += 1;
    }
    proof {
        assert(s@.take(s@.len() as int) =~= s@);
    }
    out
}

impl Ledger {
    /// The user's balance, positions and armed standing orders, or `None`
    /// for an unknown user.
    pub fn get_user_info(&self, user_id: &String) -> (r: Option<UserInfo>)
        requires
            self.wf(),
        ensures
            match r {
                Some(info) => {
                    &&& self.balance_of(user_id@) == Some(info.balance)
                    &&& holdings_unique(info.stock@)
                    &&& forall|v: Seq<char>, sy: Seq<char>| #![auto]
                        holding_in(info.stock@, v, sy) == if v == user_id@ {
                            self.holding_of(v, sy)
                        } else {
                            None::<u64>
                        }
                    &&& standings_unique(info.buy_triggers@)
                    &&& forall|v: Seq<char>, sy: Seq<char>| #![auto]
                        standing_in(info.buy_triggers@, v, sy) == (match self.buy_trigger_of(
                            v,
                            sy,
                        ) {
                            Some(t) => if v == user_id@ && t.trigger_price is Some {
                                Some(t)
                            } else {
                                None
                            },
                            None => None,
                        })
                    &&& standings_unique(info.sell_triggers@)
                    &&& forall|v: Seq<char>, sy: Seq<char>| #![auto]
                        standing_in(info.sell_triggers@, v, sy) == (match self.sell_trigger_of(
                            v,
                            sy,
                        ) {
                            Some(t) => if v == user_id@ && t.trigger_price is Some {
                                Some(t)
                            } else {
                                None
                            },
                            None => None,
                        })
                },
                None => self.balance_of(user_id@) is None,
            },
    {
        let balance = match self.balance(user_id) {
            Some(b) => b,
            None => {
                return None;
            },
        };
        Some(
            UserInfo {
                balance,
                stock: collect_holdings(&self.holdings, user_id),
                buy_triggers: collect_armed(&self.buy_triggers, user_id),
                sell_triggers: collect_armed(&self.sell_triggers, user_id),
            },
        )
    }
}

} // verus!
