use data_engine::decimal::dec_to_string;
use data_engine::resolver::{ensure_books, ensure_exchange, ensure_securities, Registry, ResolverEffect};

const NOW: &str = "2024-01-01T00:00:00Z";

#[test]
fn ensure_exchange_is_idempotent() {
    let mut reg = Registry::new();
    let (e1, fx1) = ensure_exchange(&mut reg, "Kraken", NOW);
    let (e2, fx2) = ensure_exchange(&mut reg, "Kraken", "2024-06-01T00:00:00Z");
    assert_eq!(e1.exchange_id, e2.exchange_id);
    assert_eq!(e1.created_at, e2.created_at);
    assert_eq!(reg.exchanges.len(), 1);
    assert_eq!(fx1.len(), 1);
    assert_eq!(fx2.len(), 1);
    match &fx2[0] {
        ResolverEffect::CacheSetExchange { record } => assert_eq!(record.exchange, "Kraken"),
        other => panic!("wrong effect: {:?}", other),
    }
}

#[test]
fn distinct_exchanges_get_distinct_rows() {
    let mut reg = Registry::new();
    let (e1, _) = ensure_exchange(&mut reg, "Kraken", NOW);
    let (e2, _) = ensure_exchange(&mut reg, "Other", NOW);
    assert_ne!(e1.exchange_id, e2.exchange_id);
    assert_eq!(reg.exchanges.len(), 2);
}

#[test]
fn ensure_securities_is_idempotent_and_ordered() {
    let mut reg = Registry::new();
    let symbols = vec![String::from("BTC/USD"), String::from("ETH/USD")];
    let (s1, fx1) = ensure_securities(&mut reg, &symbols, NOW);
    let (s2, _fx2) = ensure_securities(&mut reg, &symbols, "later");
    assert_eq!(s1.len(), 2);
    assert_eq!(s1[0].symbol, "BTC/USD");
    assert_eq!(s1[1].symbol, "ETH/USD");
    assert_eq!(s1, s2);
    assert_eq!(reg.securities.len(), 2);
    assert_eq!(fx1.len(), 2);
}

#[test]
fn ensure_books_twice_returns_the_same_ids() {
    let mut reg = Registry::new();
    let (ex, _) = ensure_exchange(&mut reg, "Kraken", NOW);
    let symbols = vec![String::from("BTC/USD"), String::from("ETH/USD")];
    let (secs, _) = ensure_securities(&mut reg, &symbols, NOW);
    let (b1, fx1) = ensure_books(&mut reg, &secs, &ex, NOW);
    let (b2, _fx2) = ensure_books(&mut reg, &secs, &ex, "later");
    assert_eq!(b1.len(), 2);
    let ids1: Vec<u64> = b1.iter().map(|b| b.order_book_id).collect();
    let ids2: Vec<u64> = b2.iter().map(|b| b.order_book_id).collect();
    assert_eq!(ids1, ids2);
    assert_eq!(reg.books.len(), 2);
    assert_eq!(fx1.len(), 2);
    // a fresh book carries a zero volume and distinct side identifiers
    assert_eq!(dec_to_string(&b1[0].total_volume), "0");
    assert_ne!(b1[0].buy_order_book_id, b1[0].sell_order_book_id);
    assert_eq!(b1[0].created_at, b1[0].updated_at);
}

#[test]
fn books_are_keyed_by_exchange_and_security() {
    let mut reg = Registry::new();
    let (ex1, _) = ensure_exchange(&mut reg, "Kraken", NOW);
    let (ex2, _) = ensure_exchange(&mut reg, "Other", NOW);
    let symbols = vec![String::from("BTC/USD")];
    let (secs, _) = ensure_securities(&mut reg, &symbols, NOW);
    let (b1, _) = ensure_books(&mut reg, &secs, &ex1, NOW);
    let (b2, _) = ensure_books(&mut reg, &secs, &ex2, NOW);
    // the same security under another exchange gets its own book
    assert_ne!(b1[0].order_book_id, b2[0].order_book_id);
    assert_eq!(reg.books.len(), 2);
}
