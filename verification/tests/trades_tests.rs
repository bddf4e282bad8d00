use data_engine::classifier::{parse_message, Response};
use data_engine::trades::TradeEffect;

#[test]
fn trades_write_cache_then_store() {
    let text = "{\"channel\":\"trade\",\"type\":\"snapshot\",\"data\":[\
                 {\"symbol\":\"BTC/USD\",\"side\":\"buy\",\"price\":50000.1,\"qty\":0.25,\
                  \"ord_type\":\"limit\",\"trade_id\":1,\"timestamp\":\"t0\"},\
                 {\"symbol\":\"BTC/USD\",\"side\":\"sell\",\"price\":50000.2,\"qty\":0.5,\
                  \"ord_type\":\"market\",\"trade_id\":2,\"timestamp\":\"t1\"}]}";
    let snap = match parse_message(text).unwrap() {
        Response::TradeSnapshot(s) => s,
        other => panic!("wrong variant: {:?}", other),
    };
    let effects = snap.process_snapshot();
    assert_eq!(effects.len(), 4);
    match &effects[0] {
        TradeEffect::CacheSetTrade { trade } => assert_eq!(trade.trade_id, 1),
        other => panic!("wrong effect: {:?}", other),
    }
    match &effects[1] {
        TradeEffect::CacheSetTrade { trade } => assert_eq!(trade.trade_id, 2),
        other => panic!("wrong effect: {:?}", other),
    }
    match &effects[2] {
        TradeEffect::StoreCreateTrade { trade } => assert_eq!(trade.trade_id, 1),
        other => panic!("wrong effect: {:?}", other),
    }
    match &effects[3] {
        TradeEffect::StoreCreateTrade { trade } => assert_eq!(trade.trade_id, 2),
        other => panic!("wrong effect: {:?}", other),
    }
}

#[test]
fn trade_update_appends_in_order() {
    let text = "{\"channel\":\"trade\",\"type\":\"update\",\"data\":[\
                 {\"symbol\":\"ETH/USD\",\"side\":\"buy\",\"price\":3000,\"qty\":1,\
                  \"ord_type\":\"limit\",\"trade_id\":9,\"timestamp\":\"t\"}]}";
    let upd = match parse_message(text).unwrap() {
        Response::TradeUpdate(u) => u,
        other => panic!("wrong variant: {:?}", other),
    };
    let effects = upd.process_update();
    assert_eq!(effects.len(), 2);
}

#[test]
fn empty_trade_data_is_a_no_op_tape() {
    let upd = match parse_message("{\"channel\":\"trade\",\"type\":\"update\",\"data\":[]}")
        .unwrap()
    {
        Response::TradeUpdate(u) => u,
        other => panic!("wrong variant: {:?}", other),
    };
    assert!(upd.process_update().is_empty());
}
