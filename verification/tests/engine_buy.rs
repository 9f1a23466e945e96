use day_trader::errors::TradeError;
use day_trader::ledger::Ledger;

fn s(v: &str) -> String {
    v.to_string()
}

#[test]
fn test_add_new_user() {
    let mut ledger = Ledger::new();
    ledger.add(&s("marcus"), 10000).unwrap();
    assert_eq!(ledger.balance(&s("marcus")), Some(10000));
}

#[test]
fn test_add_old_user() {
    let mut ledger = Ledger::new();
    ledger.add(&s("marcus"), 10000).unwrap();
    ledger.add(&s("marcus"), 10000).unwrap();
    assert_eq!(ledger.balance(&s("marcus")), Some(20000));
}

#[test]
fn add_rejects_a_zero_deposit() {
    let mut ledger = Ledger::new();
    assert_eq!(
        ledger.add(&s("marcus"), 0),
        Err(TradeError::InvalidAmount)
    );
    assert_eq!(ledger.balance(&s("marcus")), None);
}

#[test]
fn test_init_no_user() {
    let mut ledger = Ledger::new();
    let response = ledger.init_buy(&s("marcus"), &s("APPL"), 5000, 10000, 0);
    assert!(response.is_err(), "expected error but was {response:?}");
}

#[test]
fn test_sufficient_funds() {
    let mut ledger = Ledger::new();
    ledger.add(&s("marcus"), 10000).unwrap();
    let buy = ledger.init_buy(&s("marcus"), &s("APPL"), 5000, 10000, 0);
    assert!(buy.is_ok(), "expected ok but was {buy:?}");

    assert_eq!(ledger.balance(&s("marcus")), Some(0));

    let queued = ledger.queued_buy(&s("marcus")).expect("expected a queued buy");
    assert_eq!(queued.user_id, s("marcus"));
    assert_eq!(queued.stock_symbol, s("APPL"));
    assert_eq!(queued.quoted_price, 5000);
    assert_eq!(queued.amount_dollars, 10000);
}

#[test]
fn test_insufficient_funds() {
    let mut ledger = Ledger::new();
    ledger.add(&s("marcus"), 10000).unwrap();
    let buy = ledger.init_buy(&s("marcus"), &s("AAPL"), 5000, 20000, 0);
    assert_eq!(buy, Err(TradeError::InsufficientFunds));
    assert_eq!(ledger.balance(&s("marcus")), Some(10000));
}

#[test]
fn test_override_queued_buy() {
    let mut ledger = Ledger::new();
    ledger.add(&s("marcus"), 40000).unwrap();
    ledger.init_buy(&s("marcus"), &s("AAPL"), 5000, 20000, 0).unwrap();

    let buy = ledger.init_buy(&s("marcus"), &s("TSLA"), 5000, 10000, 0);
    assert!(buy.is_ok(), "expected ok but was {buy:?}");

    assert_eq!(ledger.balance(&s("marcus")), Some(30000));

    let queued = ledger.queued_buy(&s("marcus")).expect("expected a queued buy");
    assert_eq!(queued.user_id, s("marcus"));
    assert_eq!(queued.stock_symbol, s("TSLA"));
    assert_eq!(queued.quoted_price, 5000);
    assert_eq!(queued.amount_dollars, 10000);
}

#[test]
fn init_buy_removes_funds() {
    let mut ledger = Ledger::new();
    ledger.add(&s("marcus"), 40000).unwrap();
    ledger.init_buy(&s("marcus"), &s("AAPL"), 5000, 20000, 0).unwrap();
    assert_eq!(ledger.balance(&s("marcus")), Some(20000));
}

#[test]
fn commit_buy_no_buy() {
    let mut ledger = Ledger::new();
    let buy = ledger.commit_buy(&s("marcus"), 0);
    assert_eq!(buy, Err(TradeError::NoPendingOrder));
}

#[test]
fn commit_buy_with_buy() {
    let mut ledger = Ledger::new();
    ledger.add(&s("marcus"), 40000).unwrap();
    ledger.init_buy(&s("marcus"), &s("AAPL"), 5000, 20000, 0).unwrap();
    let buy = ledger.commit_buy(&s("marcus"), 30);
    assert!(buy.is_ok(), "expected ok but was {buy:?}");

    assert!(ledger.queued_buy(&s("marcus")).is_none());
    assert_eq!(ledger.holding(&s("marcus"), &s("AAPL")), Some(4));
    assert_eq!(ledger.balance(&s("marcus")), Some(20000));
}

#[test]
fn commit_timed_out_buy() {
    let mut ledger = Ledger::new();
    ledger.add(&s("marcus"), 40000).unwrap();
    ledger.init_buy(&s("marcus"), &s("AAPL"), 5000, 20000, 0).unwrap();

    // six minutes later the order is long past its sixty-second window
    let buy = ledger.commit_buy(&s("marcus"), 360);
    assert_eq!(buy, Err(TradeError::OrderExpired));

    assert!(ledger.queued_buy(&s("marcus")).is_none());
    assert_eq!(ledger.balance(&s("marcus")), Some(40000));
    assert_eq!(ledger.holding(&s("marcus"), &s("AAPL")), None);
}

#[test]
fn test_cancel_buy_with_no_pending_buy() {
    let mut ledger = Ledger::new();
    let cancel = ledger.cancel_buy(&s("marcus"), 0);
    assert_eq!(cancel, Err(TradeError::NoPendingOrder));
}

#[test]
fn test_cancel_buy_with_pending_buy() {
    let mut ledger = Ledger::new();
    ledger.add(&s("marcus"), 40000).unwrap();
    ledger.init_buy(&s("marcus"), &s("AAPL"), 5000, 20000, 0).unwrap();
    let cancel = ledger.cancel_buy(&s("marcus"), 30);
    assert!(cancel.is_ok(), "expected ok but was {cancel:?}");

    assert!(ledger.queued_buy(&s("marcus")).is_none());
    assert_eq!(ledger.balance(&s("marcus")), Some(40000));
}

#[test]
fn test_cancel_buy_with_expired_queued_buy() {
    let mut ledger = Ledger::new();
    ledger.add(&s("marcus"), 40000).unwrap();
    ledger.init_buy(&s("marcus"), &s("AAPL"), 5000, 20000, 0).unwrap();

    let cancel = ledger.cancel_buy(&s("marcus"), 360);
    assert_eq!(cancel, Err(TradeError::OrderExpired));

    // the refund still happened, only the call reports the order stale
    assert!(ledger.queued_buy(&s("marcus")).is_none());
    assert_eq!(ledger.balance(&s("marcus")), Some(40000));
}

#[test]
fn login_knows_only_existing_accounts() {
    let mut ledger = Ledger::new();
    assert!(!ledger.login(&s("marcus")));
    ledger.add(&s("marcus"), 1).unwrap();
    assert!(ledger.login(&s("marcus")));
}
