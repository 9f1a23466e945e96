use day_trader::cache::{CacheLookup, QuoteCache};
use day_trader::errors::TradeError;
use day_trader::wire::{make_socket_message, response_from_quote_server_string, FakeQuoteServer};

fn s(v: &str) -> String {
    v.to_string()
}

#[test]
fn cache_single_flight_on_a_cold_symbol() {
    let mut cache = QuoteCache::new(100);

    // the first caller on a cold cache is told to fetch
    assert_eq!(cache.lookup(&s("AAPL")), CacheLookup::MustFetch);

    // every concurrent caller before the fetch completes waits for it:
    // exactly one call reaches the pricing collaborator
    let mut fetches: u32 = 1;
    for _ in 0..8 {
        match cache.lookup(&s("AAPL")) {
            CacheLookup::AwaitInFlight => {}
            CacheLookup::MustFetch => fetches += 1,
            CacheLookup::Hit(_) => panic!("nothing is cached yet"),
        }
    }
    assert_eq!(fetches, 1);

    // the fetch completes; the fetcher hands the one price to every waiter
    assert!(cache.complete_fetch(&s("AAPL"), 12345));

    // from now on every caller hits the cache with that same price
    for _ in 0..3 {
        assert_eq!(cache.lookup(&s("AAPL")), CacheLookup::Hit(12345));
    }
}

#[test]
fn cache_failed_fetch_caches_nothing() {
    let mut cache = QuoteCache::new(100);
    assert_eq!(cache.lookup(&s("AAPL")), CacheLookup::MustFetch);
    cache.fail_fetch(&s("AAPL"));
    assert_eq!(cache.cached_price(&s("AAPL")), None);
    // the flight is over, so the next caller retries the fetch
    assert_eq!(cache.lookup(&s("AAPL")), CacheLookup::MustFetch);
}

#[test]
fn cache_refresh_and_bound() {
    let mut cache = QuoteCache::new(1);
    assert_eq!(cache.lookup(&s("AAPL")), CacheLookup::MustFetch);
    assert!(cache.complete_fetch(&s("AAPL"), 100));
    // a refresh of a cached symbol replaces the price
    assert!(cache.complete_fetch(&s("AAPL"), 150));
    assert_eq!(cache.cached_price(&s("AAPL")), Some(150));
    // the map is full: caching a new symbol evicts the oldest entry
    assert_eq!(cache.lookup(&s("TSLA")), CacheLookup::MustFetch);
    assert!(cache.complete_fetch(&s("TSLA"), 200));
    assert_eq!(cache.cached_price(&s("AAPL")), None);
    assert_eq!(cache.cached_price(&s("TSLA")), Some(200));
    assert_eq!(cache.stocks().len(), 1);

    // only a cache with no room at all declines to cache
    let mut empty = QuoteCache::new(0);
    assert_eq!(empty.lookup(&s("AAPL")), CacheLookup::MustFetch);
    assert!(!empty.complete_fetch(&s("AAPL"), 100));
    assert_eq!(empty.cached_price(&s("AAPL")), None);
}

#[test]
fn socket_message_layout() {
    let msg = make_socket_message(s("marcus"), "TSLA");
    assert_eq!(msg, "marcus,TSLA\n");
}

#[test]
fn response_parsing_round_trip() {
    let parsed = response_from_quote_server_string("123.45,TSLA,marcus,1699999999999,abc123")
        .expect("a well-formed response parses");
    assert_eq!(parsed.quote, 12345);
    assert_eq!(parsed.sym, s("TSLA"));
    assert_eq!(parsed.user_id, s("marcus"));
    assert_eq!(parsed.timestamp, 1699999999999);
    assert_eq!(parsed.crypto_key, s("abc123"));

    assert!(response_from_quote_server_string("only,three,fields").is_err());
    assert!(response_from_quote_server_string("notaprice,TSLA,marcus,1,key").is_err());
    assert!(response_from_quote_server_string("1.00,TSLA,marcus,notatime,key").is_err());
}

#[test]
fn check_fake_quote_server_can_respond() {
    let mut server = FakeQuoteServer::new();
    server.write_message(s("marcus,TSLA"));
    let line = server.read_response().expect("a pending request is answered");

    let fields: Vec<&str> = line.split(',').collect();
    let [price, ticker, name, timestamp, hash] = fields[..] else {
        panic!("invalid response {line}");
    };
    assert!(price.parse::<u32>().is_ok());
    assert!(ticker.parse::<u32>().is_err());
    assert!(name.parse::<u32>().is_err());
    assert!(timestamp.parse::<u128>().is_ok());
    assert!(hash.parse::<u32>().is_err());
    assert_eq!(ticker, "TSLA");
    assert_eq!(name, "marcus");
    assert_eq!(hash.len(), 57);
    assert_eq!(server.sent, None);

    // the price the fake server draws stays inside its band, and the line
    // parses as a quote response for the same user and symbol
    let parsed = response_from_quote_server_string(&line).expect("the response parses");
    assert!((50 * 100..300 * 100).contains(&parsed.quote));
    assert_eq!(parsed.sym, s("TSLA"));
    assert_eq!(parsed.user_id, s("marcus"));
}

#[test]
fn fake_quote_server_rejects_bad_requests() {
    let mut server = FakeQuoteServer::new();
    assert_eq!(server.read_response(), None);

    server.write_message(s("no-comma-here"));
    assert_eq!(server.read_response(), Some(s("error - bad request")));

    // the newline a socket message carries is accepted
    let mut server = FakeQuoteServer::new();
    server.write_message(make_socket_message(s("daws"), "X"));
    let line = server.read_response().expect("answered");
    let parsed = response_from_quote_server_string(&line).expect("parses");
    assert_eq!(parsed.sym, s("X"));
    assert_eq!(parsed.user_id, s("daws"));
}

#[test]
fn trade_error_messages_name_every_failure() {
    assert_eq!(TradeError::InvalidAmount.message(), "amount must be positive");
    assert_eq!(TradeError::InsufficientFunds.message(), "insufficient funds");
    assert_eq!(TradeError::InsufficientShares.message(), "insufficient shares");
    assert_eq!(TradeError::NoPendingOrder.message(), "no pending order");
    assert_eq!(TradeError::NoStandingOrder.message(), "no standing order");
    assert_eq!(TradeError::OrderExpired.message(), "order expired");
    assert_eq!(TradeError::QuoteUnavailable.message(), "quote unavailable");
}
