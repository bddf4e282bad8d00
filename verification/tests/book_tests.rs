use data_engine::book::{BookEffect, BookState, Side};
use data_engine::classifier::{parse_message, Response};
use data_engine::decimal::{dec_to_string, parse_dec_str};

fn snapshot_frame() -> data_engine::classifier::Level3Snapshot {
    let text = "{\"channel\":\"level3\",\"type\":\"snapshot\",\"data\":[{\"symbol\":\"BTC/USD\",\
                 \"checksum\":0,\"bids\":[{\"order_id\":\"b1\",\"limit_price\":100.00,\
                 \"order_qty\":2,\"timestamp\":\"t0\"}],\
                 \"asks\":[{\"order_id\":\"a1\",\"limit_price\":101.00,\"order_qty\":3,\
                 \"timestamp\":\"t1\"}]}]}";
    match parse_message(text).unwrap() {
        Response::Level3Snapshot(s) => s,
        other => panic!("wrong variant: {:?}", other),
    }
}

fn update_frame(body: &str) -> data_engine::classifier::Level3Update {
    match parse_message(body).unwrap() {
        Response::Level3Update(u) => u,
        other => panic!("wrong variant: {:?}", other),
    }
}

#[test]
fn snapshot_fills_the_book() {
    let (book, effects) = snapshot_frame().process_snapshot(BookState::new()).unwrap();
    assert_eq!(book.bids.len(), 1);
    assert_eq!(book.asks.len(), 1);
    assert_eq!(book.bids[0].order_id, "b1");
    assert_eq!(book.bids[0].qty, parse_dec_str("2").unwrap());
    assert_eq!(book.asks[0].order_id, "a1");
    assert_eq!(dec_to_string(&book.total_volume), "5");
    // the cache writes for both orders are present, then the book entry
    let has_b1 = effects.iter().any(|e| {
        matches!(e, BookEffect::CacheSetOrder { side: Side::Buy, order } if order.order_id == "b1")
    });
    let has_a1 = effects.iter().any(|e| {
        matches!(e, BookEffect::CacheSetOrder { side: Side::Sell, order } if order.order_id == "a1")
    });
    assert!(has_b1 && has_a1);
    match effects.last().unwrap() {
        BookEffect::StoreSetBookVolume { total } => assert_eq!(dec_to_string(total), "5"),
        other => panic!("wrong final effect: {:?}", other),
    }
}

#[test]
fn update_applies_the_delta_semantics() {
    let (book, _) = snapshot_frame().process_snapshot(BookState::new()).unwrap();
    let u = update_frame(
        "{\"channel\":\"level3\",\"type\":\"update\",\"data\":[{\"symbol\":\"BTC/USD\",\
          \"checksum\":0,\"bids\":[{\"event\":\"add\",\"order_id\":\"b2\",\
          \"limit_price\":99.50,\"order_qty\":1,\"timestamp\":\"t2\"}],\
          \"asks\":[{\"event\":\"delete\",\"order_id\":\"a1\",\"limit_price\":101.00,\
          \"order_qty\":3,\"timestamp\":\"t3\"}]}]}",
    );
    let (book, effects) = u.process_update(book).unwrap();
    assert!(book.bids.iter().any(|o| o.order_id == "b2"));
    assert!(!book.asks.iter().any(|o| o.order_id == "a1"));
    // 5 + 1 - 3 = 3 under the delta-correct semantics
    assert_eq!(dec_to_string(&book.total_volume), "3");
    let deleted = effects.iter().any(|e| {
        matches!(e, BookEffect::CacheDelOrder { side: Side::Sell, order_id } if order_id == "a1")
    });
    assert!(deleted);
}

#[test]
fn modify_moves_volume_by_the_difference() {
    let (book, _) = snapshot_frame().process_snapshot(BookState::new()).unwrap();
    let u = update_frame(
        "{\"channel\":\"level3\",\"type\":\"update\",\"data\":[{\"symbol\":\"BTC/USD\",\
          \"checksum\":0,\"bids\":[{\"event\":\"modify\",\"order_id\":\"b1\",\
          \"limit_price\":100.00,\"order_qty\":7,\"timestamp\":\"t\"}],\"asks\":[]}]}",
    );
    let (book, effects) = u.process_update(book).unwrap();
    // 5 - 2 + 7 = 10, not 5 + 7
    assert_eq!(dec_to_string(&book.total_volume), "10");
    assert_eq!(book.bids.len(), 1);
    assert_eq!(book.bids[0].qty, parse_dec_str("7").unwrap());
    let audited = effects.iter().any(|e| {
        matches!(e, BookEffect::StoreCreateModified { side: Side::Buy, order } if order.order_id == "b1")
    });
    assert!(audited);
}

#[test]
fn modify_of_unknown_id_is_skipped() {
    let (book, _) = snapshot_frame().process_snapshot(BookState::new()).unwrap();
    let u = update_frame(
        "{\"channel\":\"level3\",\"type\":\"update\",\"data\":[{\"symbol\":\"BTC/USD\",\
          \"checksum\":0,\"bids\":[{\"event\":\"modify\",\"order_id\":\"ghost\",\
          \"limit_price\":1,\"order_qty\":9,\"timestamp\":\"t\"}],\"asks\":[]}]}",
    );
    let (book, _) = u.process_update(book).unwrap();
    assert_eq!(book.bids.len(), 1);
    assert_eq!(dec_to_string(&book.total_volume), "5");
}

#[test]
fn delete_of_unknown_id_is_skipped() {
    let (book, _) = snapshot_frame().process_snapshot(BookState::new()).unwrap();
    let u = update_frame(
        "{\"channel\":\"level3\",\"type\":\"update\",\"data\":[{\"symbol\":\"BTC/USD\",\
          \"checksum\":0,\"bids\":[],\"asks\":[{\"event\":\"delete\",\"order_id\":\"ghost\",\
          \"limit_price\":1,\"order_qty\":9,\"timestamp\":\"t\"}]}]}",
    );
    let (book, _) = u.process_update(book).unwrap();
    assert_eq!(dec_to_string(&book.total_volume), "5");
}

#[test]
fn wrong_channel_is_a_no_op() {
    let s = match parse_message(
        "{\"channel\":\"level3\",\"type\":\"snapshot\",\"data\":[]}",
    )
    .unwrap()
    {
        Response::Level3Snapshot(s) => s,
        other => panic!("wrong variant: {:?}", other),
    };
    let (book, effects) = s.process_snapshot(BookState::new()).unwrap();
    assert!(book.bids.is_empty() && book.asks.is_empty());
    assert!(effects.is_empty());
}

#[test]
fn volume_tracks_open_orders_over_a_sequence() {
    // the balance law on concrete values: total always equals the sum of the
    // open quantities on both sides
    let (mut book, _) = snapshot_frame().process_snapshot(BookState::new()).unwrap();
    let updates = [
        "{\"channel\":\"level3\",\"type\":\"update\",\"data\":[{\"symbol\":\"S\",\"checksum\":0,\
          \"bids\":[{\"event\":\"add\",\"order_id\":\"b2\",\"limit_price\":99.5,\
          \"order_qty\":1.5,\"timestamp\":\"t\"}],\"asks\":[]}]}",
        "{\"channel\":\"level3\",\"type\":\"update\",\"data\":[{\"symbol\":\"S\",\"checksum\":0,\
          \"bids\":[{\"event\":\"modify\",\"order_id\":\"b2\",\"limit_price\":99.5,\
          \"order_qty\":0.5,\"timestamp\":\"t\"}],\"asks\":[]}]}",
        "{\"channel\":\"level3\",\"type\":\"update\",\"data\":[{\"symbol\":\"S\",\"checksum\":0,\
          \"bids\":[{\"event\":\"delete\",\"order_id\":\"b1\",\"limit_price\":100.0,\
          \"order_qty\":2,\"timestamp\":\"t\"}],\"asks\":[]}]}",
    ];
    for text in updates.iter() {
        let u = update_frame(text);
        let (next, _) = u.process_update(book).unwrap();
        book = next;
        let mut sum = data_engine::decimal::dec_new_zero();
        for o in book.bids.iter().chain(book.asks.iter()) {
            sum = data_engine::decimal::dec_add(sum, o.qty).unwrap();
        }
        // compare values over the common denominator by rendering both
        assert_eq!(
            dec_to_string(&book.total_volume),
            dec_to_string(&normalize_like(&book.total_volume, sum))
        );
    }
    assert_eq!(dec_to_string(&book.total_volume), "3.5");
}

/// Brings `v` to the same scale as `reference` so the rendered text matches.
fn normalize_like(
    reference: &data_engine::decimal::Dec,
    v: data_engine::decimal::Dec,
) -> data_engine::decimal::Dec {
    let zero_at_scale = data_engine::decimal::Dec { units: 0, scale: reference.scale };
    data_engine::decimal::dec_add(v, zero_at_scale).unwrap()
}

#[test]
fn second_snapshot_supersedes_the_first() {
    let (book, _) = snapshot_frame().process_snapshot(BookState::new()).unwrap();
    let s2 = match parse_message(
        "{\"channel\":\"level3\",\"type\":\"snapshot\",\"data\":[{\"symbol\":\"BTC/USD\",\
          \"checksum\":0,\"bids\":[{\"order_id\":\"c1\",\"limit_price\":90,\"order_qty\":4,\
          \"timestamp\":\"t\"}],\"asks\":[]}]}",
    )
    .unwrap()
    {
        Response::Level3Snapshot(s) => s,
        other => panic!("wrong variant: {:?}", other),
    };
    let (book2, effects) = s2.process_snapshot(book).unwrap();
    assert_eq!(book2.bids.len(), 1);
    assert_eq!(book2.bids[0].order_id, "c1");
    assert!(book2.asks.is_empty());
    assert_eq!(dec_to_string(&book2.total_volume), "4");
    // the superseded keys are flushed from the cache
    let flushed_b1 = effects.iter().any(|e| {
        matches!(e, BookEffect::CacheDelOrder { side: Side::Buy, order_id } if order_id == "b1")
    });
    let flushed_a1 = effects.iter().any(|e| {
        matches!(e, BookEffect::CacheDelOrder { side: Side::Sell, order_id } if order_id == "a1")
    });
    assert!(flushed_b1 && flushed_a1);
}
