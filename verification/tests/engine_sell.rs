use day_trader::errors::TradeError;
use day_trader::ledger::Ledger;

fn s(v: &str) -> String {
    v.to_string()
}

/// A ledger where marcus bought shares of the given symbol: deposit, buy,
/// commit.
fn ledger_with_shares(balance: u64, sym: &str, price: u64, amount: u64) -> Ledger {
    let mut ledger = Ledger::new();
    ledger.add(&s("marcus"), balance).unwrap();
    ledger.init_buy(&s("marcus"), &s(sym), price, amount, 0).unwrap();
    ledger.commit_buy(&s("marcus"), 0).unwrap();
    ledger
}

#[test]
fn test_init_sell_with_no_funds() {
    let mut ledger = Ledger::new();
    let sell = ledger.init_sell(&s("marcus"), &s("APPL"), 5000, 10000, 0);
    assert_eq!(sell, Err(TradeError::InsufficientShares));
}

#[test]
fn test_init_sell_with_stocks_to_sell() {
    // 100 dollars buy 2 shares at 50
    let mut ledger = ledger_with_shares(10000, "APPL", 5000, 10000);

    let sell = ledger.init_sell(&s("marcus"), &s("APPL"), 5000, 10000, 0);
    assert!(sell.is_ok(), "expected ok but was {sell:?}");

    let queued = ledger.queued_sell(&s("marcus")).expect("expected sell to exist");
    assert_eq!(queued.user_id, s("marcus"));
    assert_eq!(queued.stock_symbol, s("APPL"));
    assert_eq!(queued.quoted_price, 5000);
    assert_eq!(queued.amount_dollars, 10000);

    assert_eq!(ledger.holding(&s("marcus"), &s("APPL")), Some(0));
}

#[test]
fn test_init_buy_with_insufficient_stocks_to_sell() {
    let mut ledger = ledger_with_shares(10000, "APPL", 5000, 10000);

    let sell = ledger.init_sell(&s("marcus"), &s("APPL"), 5000, 20000, 0);
    assert_eq!(sell, Err(TradeError::InsufficientShares));

    assert!(ledger.queued_sell(&s("marcus")).is_none());
    assert_eq!(ledger.holding(&s("marcus"), &s("APPL")), Some(2));
}

#[test]
fn test_override_queued_sell() {
    let mut ledger = ledger_with_shares(40000, "APPL", 5000, 20000);

    ledger.init_sell(&s("marcus"), &s("APPL"), 5000, 20000, 0).unwrap();
    let sell = ledger.init_sell(&s("marcus"), &s("APPL"), 5000, 10000, 0);
    assert!(sell.is_ok(), "expected ok but was {sell:?}");

    let queued = ledger.queued_sell(&s("marcus")).expect("expected sell to exist");
    assert_eq!(queued.stock_symbol, s("APPL"));
    assert_eq!(queued.quoted_price, 5000);
    assert_eq!(queued.amount_dollars, 10000);

    assert_eq!(ledger.holding(&s("marcus"), &s("APPL")), Some(2));
}

#[test]
fn test_commit_sell_no_queued_sell() {
    let mut ledger = Ledger::new();
    let result = ledger.commit_sell(&s("test_user_id"), 0);
    assert_eq!(result, Err(TradeError::NoPendingOrder));
}

#[test]
fn test_commit_sell_with_pending_sell() {
    let mut ledger = ledger_with_shares(20000, "AAPL", 10000, 10000);
    ledger.init_sell(&s("marcus"), &s("AAPL"), 10000, 10000, 0).unwrap();

    let result = ledger.commit_sell(&s("marcus"), 0);
    assert!(result.is_ok(), "expected ok but was {result:?}");

    assert_eq!(ledger.balance(&s("marcus")), Some(20000));
    assert_eq!(ledger.holding(&s("marcus"), &s("AAPL")), Some(0));
    assert!(ledger.queued_sell(&s("marcus")).is_none());
}

#[test]
fn test_commit_sell_with_expired_queued_sell() {
    let mut ledger = ledger_with_shares(20000, "AAPL", 10000, 10000);
    ledger.init_sell(&s("marcus"), &s("AAPL"), 10000, 10000, 0).unwrap();

    // five minutes plus a second: past the sell window
    let result = ledger.commit_sell(&s("marcus"), 301);
    assert_eq!(result, Err(TradeError::OrderExpired));

    assert_eq!(ledger.balance(&s("marcus")), Some(10000));
    assert_eq!(ledger.holding(&s("marcus"), &s("AAPL")), Some(1));
}

#[test]
fn test_cancel_sell_no_queued_sell() {
    let mut ledger = Ledger::new();
    let cancel = ledger.cancel_sell(&s("marcus"), 0);
    assert_eq!(cancel, Err(TradeError::NoPendingOrder));
}

#[test]
fn test_cancel_sell_with_pending_sell() {
    let mut ledger = ledger_with_shares(20000, "AAPL", 10000, 10000);
    ledger.init_sell(&s("marcus"), &s("AAPL"), 10000, 10000, 0).unwrap();

    let cancel = ledger.cancel_sell(&s("marcus"), 0);
    assert!(cancel.is_ok(), "expected ok but was {cancel:?}");

    assert_eq!(ledger.holding(&s("marcus"), &s("AAPL")), Some(1));
    assert!(ledger.queued_sell(&s("marcus")).is_none());
}
