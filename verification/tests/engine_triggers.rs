use day_trader::errors::TradeError;
use day_trader::ledger::Ledger;

fn s(v: &str) -> String {
    v.to_string()
}

fn ledger_with_shares(balance: u64, sym: &str, price: u64, amount: u64) -> Ledger {
    let mut ledger = Ledger::new();
    ledger.add(&s("marcus"), balance).unwrap();
    ledger.init_buy(&s("marcus"), &s(sym), price, amount, 0).unwrap();
    ledger.commit_buy(&s("marcus"), 0).unwrap();
    ledger
}

#[test]
fn test_set_buy_amount_no_user() {
    let mut ledger = Ledger::new();
    let set = ledger.set_buy_amount(&s("marcus"), &s("AAPL"), 10000);
    assert_eq!(set, Err(TradeError::InsufficientFunds));
}

#[test]
fn test_set_buy_amount_sufficient_funds() {
    let mut ledger = Ledger::new();
    ledger.add(&s("marcus"), 20000).unwrap();

    let set = ledger.set_buy_amount(&s("marcus"), &s("AAPL"), 10000);
    assert!(set.is_ok(), "expected ok but was {set:?}");

    let trigger = ledger.buy_trigger(&s("marcus"), &s("AAPL")).expect("expected a trigger");
    assert_eq!(trigger.amount, 10000);
    assert_eq!(trigger.trigger_price, None);
    assert_eq!(ledger.balance(&s("marcus")), Some(10000));
}

#[test]
fn test_set_buy_with_already_existing_buy() {
    let mut ledger = Ledger::new();
    ledger.add(&s("marcus"), 20000).unwrap();

    let set = ledger.set_buy_amount(&s("marcus"), &s("AAPL"), 10000);
    assert!(set.is_ok(), "expected ok but was {set:?}");

    let set = ledger.set_buy_amount(&s("marcus"), &s("AAPL"), 5000);
    assert!(set.is_ok(), "expected ok but was {set:?}");

    let trigger = ledger.buy_trigger(&s("marcus"), &s("AAPL")).expect("expected a trigger");
    assert_eq!(trigger.amount, 5000);
    assert_eq!(ledger.balance(&s("marcus")), Some(15000));
}

#[test]
fn set_buy_amount_refund_funds_the_replacement() {
    let mut ledger = Ledger::new();
    ledger.add(&s("marcus"), 15000).unwrap();
    ledger.set_buy_amount(&s("marcus"), &s("AAPL"), 10000).unwrap();
    assert_eq!(ledger.balance(&s("marcus")), Some(5000));

    // the prior reservation is refunded before the new debit, so a balance
    // of 50 dollars still covers replacing the 100-dollar standing buy
    let set = ledger.set_buy_amount(&s("marcus"), &s("AAPL"), 10000);
    assert!(set.is_ok(), "expected ok but was {set:?}");
    assert_eq!(ledger.balance(&s("marcus")), Some(5000));

    let trigger = ledger.buy_trigger(&s("marcus"), &s("AAPL")).expect("expected a trigger");
    assert_eq!(trigger.amount, 10000);
}

#[test]
fn test_set_buy_trigger_with_no_set_buy() {
    let mut ledger = Ledger::new();
    let set = ledger.set_buy_trigger(&s("marcus"), &s("AAPL"), 10000);
    assert_eq!(set, Err(TradeError::NoStandingOrder));
}

#[test]
fn test_set_buy_trigger_with_set_buy() {
    let mut ledger = Ledger::new();
    ledger.add(&s("marcus"), 100000).unwrap();

    ledger.set_buy_amount(&s("marcus"), &s("AAPL"), 10000).unwrap();
    let set = ledger.set_buy_trigger(&s("marcus"), &s("AAPL"), 10000);
    assert!(set.is_ok(), "expected ok but was {set:?}");

    assert_eq!(ledger.balance(&s("marcus")), Some(90000));

    let trigger = ledger.buy_trigger(&s("marcus"), &s("AAPL")).expect("expected a trigger");
    assert_eq!(trigger.amount, 10000);
    assert_eq!(trigger.trigger_price, Some(10000));
}

#[test]
fn test_cancel_set_buy_no_buy() {
    let mut ledger = Ledger::new();
    let cancel = ledger.cancel_set_buy(&s("marcus"), &s("AAPL"));
    assert_eq!(cancel, Err(TradeError::NoStandingOrder));
}

#[test]
fn test_cancel_set_buy_with_buy() {
    let mut ledger = Ledger::new();
    ledger.add(&s("marcus"), 10000).unwrap();
    ledger.set_buy_amount(&s("marcus"), &s("APPL"), 10000).unwrap();

    let cancel = ledger.cancel_set_buy(&s("marcus"), &s("APPL"));
    assert!(cancel.is_ok(), "expected ok but was {cancel:?}");

    assert_eq!(ledger.balance(&s("marcus")), Some(10000));
    assert!(ledger.buy_trigger(&s("marcus"), &s("APPL")).is_none());
}

#[test]
fn test_set_sell_amount_no_stock() {
    let mut ledger = Ledger::new();
    let set = ledger.set_sell_amount(&s("marcus"), &s("AAPL"), 100);
    assert_eq!(set, Err(TradeError::InsufficientShares));
}

#[test]
fn test_set_sell_amount_with_stock() {
    // 100 dollars at 50 buy two shares
    let mut ledger = ledger_with_shares(100000, "AAPL", 5000, 10000);
    assert_eq!(ledger.holding(&s("marcus"), &s("AAPL")), Some(2));

    let set = ledger.set_sell_amount(&s("marcus"), &s("AAPL"), 1);
    assert!(set.is_ok(), "expected ok but was {set:?}");

    assert_eq!(ledger.holding(&s("marcus"), &s("AAPL")), Some(1));

    let trigger = ledger.sell_trigger(&s("marcus"), &s("AAPL")).expect("expected a trigger");
    assert_eq!(trigger.amount, 1);
    assert_eq!(trigger.trigger_price, None);
}

#[test]
fn test_set_sell_amount_with_prev_sell_trigger() {
    let mut ledger = ledger_with_shares(100000, "AAPL", 5000, 10000);

    ledger.set_sell_amount(&s("marcus"), &s("AAPL"), 2).unwrap();
    let set = ledger.set_sell_amount(&s("marcus"), &s("AAPL"), 1);
    assert!(set.is_ok(), "expected ok but was {set:?}");

    assert_eq!(ledger.holding(&s("marcus"), &s("AAPL")), Some(1));

    let trigger = ledger.sell_trigger(&s("marcus"), &s("AAPL")).expect("expected a trigger");
    assert_eq!(trigger.amount, 1);
    assert_eq!(trigger.trigger_price, None);
}

#[test]
fn test_set_sell_trigger_no_set_amount() {
    let mut ledger = ledger_with_shares(10000, "TEST", 5000, 10000);

    let result = ledger.set_sell_trigger(&s("marcus"), &s("TEST"), 100);
    assert_eq!(result, Err(TradeError::NoStandingOrder));
    assert!(ledger.sell_trigger(&s("marcus"), &s("TEST")).is_none());
}

#[test]
fn test_set_sell_trigger_with_set_amount() {
    let mut ledger = ledger_with_shares(10000, "TEST", 5000, 10000);

    ledger.set_sell_amount(&s("marcus"), &s("TEST"), 1).unwrap();
    ledger.set_sell_trigger(&s("marcus"), &s("TEST"), 6000).unwrap();

    let trigger = ledger.sell_trigger(&s("marcus"), &s("TEST")).expect("expected a trigger");
    assert_eq!(trigger.trigger_price, Some(6000));
    assert_eq!(trigger.amount, 1);
}

#[test]
fn test_cancel_set_sell_no_set_sell() {
    let mut ledger = Ledger::new();
    let result = ledger.cancel_set_sell(&s("marcus"), &s("TEST"));
    assert_eq!(result, Err(TradeError::NoStandingOrder));
}

#[test]
fn test_cancel_set_sell_with_set_sell() {
    let mut ledger = ledger_with_shares(10000, "TEST", 5000, 10000);
    ledger.set_sell_amount(&s("marcus"), &s("TEST"), 1).unwrap();
    ledger.set_sell_trigger(&s("marcus"), &s("TEST"), 4000).unwrap();

    let result = ledger.cancel_set_sell(&s("marcus"), &s("TEST"));
    assert!(result.is_ok(), "expected ok but was {result:?}");

    assert_eq!(ledger.holding(&s("marcus"), &s("TEST")), Some(2));
    assert!(ledger.sell_trigger(&s("marcus"), &s("TEST")).is_none());
}

#[test]
fn test_execute_buy_trigger() {
    let mut ledger = Ledger::new();
    ledger.add(&s("test"), 10000).unwrap();
    ledger.set_buy_amount(&s("test"), &s("APPL"), 10000).unwrap();
    ledger.set_buy_trigger(&s("test"), &s("APPL"), 100).unwrap();

    // the price falls to the threshold: one dollar buys one share, the
    // reserved hundred dollars buy a hundred shares
    let fired = ledger.check_buy_triggers(&s("APPL"), 100);
    assert_eq!(fired.len(), 1);
    assert_eq!(fired[0].owner_id, s("test"));

    assert_eq!(ledger.holding(&s("test"), &s("APPL")), Some(100));
    assert!(ledger.buy_trigger(&s("test"), &s("APPL")).is_none());
}

#[test]
fn buy_trigger_above_threshold_stays() {
    let mut ledger = Ledger::new();
    ledger.add(&s("dana"), 10000).unwrap();
    ledger.set_buy_amount(&s("dana"), &s("X"), 10000).unwrap();
    ledger.set_buy_trigger(&s("dana"), &s("X"), 5000).unwrap();

    // 51 dollars is above the 50-dollar threshold: nothing fires
    let fired = ledger.check_buy_triggers(&s("X"), 5100);
    assert_eq!(fired.len(), 0);
    assert!(ledger.buy_trigger(&s("dana"), &s("X")).is_some());
    assert_eq!(ledger.holding(&s("dana"), &s("X")), None);

    // at 50 it fires and buys 100/50 = 2 shares
    let fired = ledger.check_buy_triggers(&s("X"), 5000);
    assert_eq!(fired.len(), 1);
    assert!(ledger.buy_trigger(&s("dana"), &s("X")).is_none());
    assert_eq!(ledger.holding(&s("dana"), &s("X")), Some(2));
}

#[test]
fn an_unarmed_trigger_never_fires() {
    let mut ledger = Ledger::new();
    ledger.add(&s("dana"), 10000).unwrap();
    ledger.set_buy_amount(&s("dana"), &s("X"), 10000).unwrap();

    let fired = ledger.check_buy_triggers(&s("X"), 1);
    assert_eq!(fired.len(), 0);
    assert!(ledger.buy_trigger(&s("dana"), &s("X")).is_some());
}

#[test]
fn scenario_deposit_buy_commit_then_sell_trigger() {
    let mut ledger = Ledger::new();
    // Add(marcus, 400 dollars), Buy at quote 50 for 200 dollars, commit:
    // balance 200 dollars, four shares of AAPL
    ledger.add(&s("marcus"), 40000).unwrap();
    ledger.init_buy(&s("marcus"), &s("AAPL"), 5000, 20000, 0).unwrap();
    ledger.commit_buy(&s("marcus"), 10).unwrap();
    assert_eq!(ledger.balance(&s("marcus")), Some(20000));
    assert_eq!(ledger.holding(&s("marcus"), &s("AAPL")), Some(4));

    // reserve two shares and arm the sell at 60 dollars
    ledger.set_sell_amount(&s("marcus"), &s("AAPL"), 2).unwrap();
    ledger.set_sell_trigger(&s("marcus"), &s("AAPL"), 6000).unwrap();
    assert_eq!(ledger.holding(&s("marcus"), &s("AAPL")), Some(2));

    // the price rises to 65: the trigger fires, 2 * 65 dollars come in
    let (fired_buys, fired_sells) = ledger.on_price_update(&s("AAPL"), 6500);
    assert_eq!(fired_buys.len(), 0);
    assert_eq!(fired_sells.len(), 1);
    assert_eq!(ledger.balance(&s("marcus")), Some(33000));
    assert_eq!(ledger.holding(&s("marcus"), &s("AAPL")), Some(2));
    assert!(ledger.sell_trigger(&s("marcus"), &s("AAPL")).is_none());
}

#[test]
fn scenario_expired_buy_is_reverted() {
    let mut ledger = Ledger::new();
    ledger.add(&s("marcus"), 10000).unwrap();
    ledger.init_buy(&s("marcus"), &s("AAPL"), 5000, 10000, 0).unwrap();

    // sixty-one seconds later the window has passed
    let commit = ledger.commit_buy(&s("marcus"), 61);
    assert_eq!(commit, Err(TradeError::OrderExpired));
    assert_eq!(ledger.balance(&s("marcus")), Some(10000));
    assert_eq!(ledger.holding(&s("marcus"), &s("AAPL")), None);

    // exactly at the window's edge a commit still succeeds
    let mut ledger = Ledger::new();
    ledger.add(&s("marcus"), 10000).unwrap();
    ledger.init_buy(&s("marcus"), &s("AAPL"), 5000, 10000, 0).unwrap();
    assert!(ledger.commit_buy(&s("marcus"), 60).is_ok());
}

#[test]
fn get_user_info_reports_armed_triggers_only() {
    let mut ledger = ledger_with_shares(100000, "AAPL", 5000, 20000);
    ledger.set_buy_amount(&s("marcus"), &s("TSLA"), 10000).unwrap();
    ledger.set_sell_amount(&s("marcus"), &s("AAPL"), 1).unwrap();
    ledger.set_sell_trigger(&s("marcus"), &s("AAPL"), 9000).unwrap();

    let info = ledger.get_user_info(&s("marcus")).expect("user exists");
    assert_eq!(info.balance, 70000);
    assert_eq!(info.stock.len(), 1);
    assert_eq!(info.stock[0].stock_symbol, s("AAPL"));
    assert_eq!(info.stock[0].amount, 3);
    // the buy trigger has no price yet, so it is not listed
    assert_eq!(info.buy_triggers.len(), 0);
    assert_eq!(info.sell_triggers.len(), 1);
    assert_eq!(info.sell_triggers[0].trigger_price, Some(9000));

    assert!(ledger.get_user_info(&s("nobody")).is_none());
}
