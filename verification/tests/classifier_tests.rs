use data_engine::classifier::{parse_message, ParseError, Response};
use data_engine::decimal::parse_dec_str;
use data_engine::frames::{build_l3_subscribe, build_l3_unsubscribe, build_trade_subscribe};

#[test]
fn heartbeat_classifies() {
    let r = parse_message("{\"channel\":\"heartbeat\"}").unwrap();
    match r {
        Response::HeartBeat(h) => assert_eq!(h.channel, "heartbeat"),
        other => panic!("wrong variant: {:?}", other),
    }
}

#[test]
fn token_response_classifies() {
    let r = parse_message("{\"result\":{\"token\":\"T\",\"expires\":900},\"error\":[]}").unwrap();
    match r {
        Response::TokenResponse(t) => {
            assert_eq!(t.get_token(), "T");
            assert_eq!(t.result.expires, 900);
            assert!(t.error.is_empty());
        },
        other => panic!("wrong variant: {:?}", other),
    }
}

#[test]
fn empty_level3_snapshot_classifies() {
    let r = parse_message("{\"channel\":\"level3\",\"type\":\"snapshot\",\"data\":[]}").unwrap();
    match r {
        Response::Level3Snapshot(s) => {
            assert_eq!(s.channel, "level3");
            assert_eq!(s.kind, "snapshot");
            assert!(s.data.is_empty());
        },
        other => panic!("wrong variant: {:?}", other),
    }
}

#[test]
fn level3_snapshot_with_orders_classifies() {
    let text = "{\"channel\":\"level3\",\"type\":\"snapshot\",\"data\":[{\"symbol\":\"BTC/USD\",\
                 \"checksum\":-7,\"bids\":[{\"order_id\":\"b1\",\"limit_price\":100.00,\
                 \"order_qty\":2,\"timestamp\":\"2024-01-01T00:00:00Z\"}],\
                 \"asks\":[{\"order_id\":\"a1\",\"limit_price\":101.00,\"order_qty\":3,\
                 \"timestamp\":\"2024-01-01T00:00:01Z\"}]}]}";
    let r = parse_message(text).unwrap();
    match r {
        Response::Level3Snapshot(s) => {
            assert_eq!(s.data.len(), 1);
            let d = &s.data[0];
            assert_eq!(d.symbol, "BTC/USD");
            assert_eq!(d.checksum, -7);
            assert_eq!(d.bids.len(), 1);
            assert_eq!(d.bids[0].order_id, "b1");
            assert_eq!(d.bids[0].limit_price, parse_dec_str("100.00").unwrap());
            assert_eq!(d.bids[0].order_qty, parse_dec_str("2").unwrap());
            assert_eq!(d.asks[0].order_id, "a1");
            assert_eq!(d.asks[0].order_qty, parse_dec_str("3").unwrap());
        },
        other => panic!("wrong variant: {:?}", other),
    }
}

#[test]
fn level3_update_classifies() {
    let text = "{\"channel\":\"level3\",\"type\":\"update\",\"data\":[{\"symbol\":\"BTC/USD\",\
                 \"checksum\":1,\"bids\":[{\"event\":\"add\",\"order_id\":\"b2\",\
                 \"limit_price\":99.50,\"order_qty\":1,\"timestamp\":\"t\"}],\"asks\":[]}]}";
    let r = parse_message(text).unwrap();
    match r {
        Response::Level3Update(u) => {
            assert_eq!(u.data[0].bids[0].event, "add");
            assert_eq!(u.data[0].bids[0].order_qty, parse_dec_str("1").unwrap());
            assert!(u.data[0].asks.is_empty());
        },
        other => panic!("wrong variant: {:?}", other),
    }
}

#[test]
fn trade_snapshot_classifies() {
    let text = "{\"channel\":\"trade\",\"type\":\"snapshot\",\"data\":[{\"symbol\":\"BTC/USD\",\
                 \"side\":\"buy\",\"price\":50000.1,\"qty\":0.25,\"ord_type\":\"limit\",\
                 \"trade_id\":42,\"timestamp\":\"t\"}]}";
    let r = parse_message(text).unwrap();
    match r {
        Response::TradeSnapshot(s) => {
            assert_eq!(s.data.len(), 1);
            assert_eq!(s.data[0].trade_id, 42);
            assert_eq!(s.data[0].price, parse_dec_str("50000.1").unwrap());
            assert_eq!(s.data[0].qty, parse_dec_str("0.25").unwrap());
        },
        other => panic!("wrong variant: {:?}", other),
    }
}

#[test]
fn trade_update_classifies() {
    let text = "{\"channel\":\"trade\",\"type\":\"update\",\"data\":[]}";
    match parse_message(text).unwrap() {
        Response::TradeUpdate(u) => assert!(u.data.is_empty()),
        other => panic!("wrong variant: {:?}", other),
    }
}

#[test]
fn status_classifies() {
    let text = "{\"channel\":\"status\",\"type\":\"update\",\"data\":[{\"api_version\":\"v2\",\
                 \"connection_id\":12345,\"system\":\"online\",\"version\":\"2.0.0\"}]}";
    match parse_message(text).unwrap() {
        Response::Status(s) => {
            assert_eq!(s.data[0].system, "online");
            assert_eq!(s.data[0].connection_id, 12345);
        },
        other => panic!("wrong variant: {:?}", other),
    }
}

#[test]
fn invalid_json_is_rejected() {
    assert_eq!(parse_message("not json").unwrap_err(), ParseError::InvalidJson);
    assert_eq!(parse_message("{\"a\":").unwrap_err(), ParseError::InvalidJson);
    assert_eq!(parse_message("").unwrap_err(), ParseError::InvalidJson);
}

#[test]
fn unrecognized_shape_is_rejected() {
    assert_eq!(
        parse_message("{\"hello\":\"world\"}").unwrap_err(),
        ParseError::UnrecognizedShape
    );
    assert_eq!(parse_message("[1,2,3]").unwrap_err(), ParseError::UnrecognizedShape);
    // the status rule fires but the payload is missing, so no rule applies
    assert_eq!(
        parse_message("{\"channel\":\"status\"}").unwrap_err(),
        ParseError::UnrecognizedShape
    );
}

#[test]
fn built_l3_subscribe_classifies_back() {
    let symbols = vec![String::from("BTC/USD"), String::from("ETH/USD")];
    let frame = build_l3_subscribe("level3", &symbols, "TOKEN");
    match parse_message(&frame).unwrap() {
        Response::Level3Subscribe(s) => {
            assert_eq!(s.method, "subscribe");
            assert_eq!(s.params.channel, "level3");
            assert_eq!(s.params.symbol, symbols);
            assert_eq!(s.params.depth, 10);
            assert!(s.params.snapshot);
            assert_eq!(s.params.token, "TOKEN");
        },
        other => panic!("wrong variant: {:?}", other),
    }
}

#[test]
fn built_l3_unsubscribe_classifies_back() {
    let symbols = vec![String::from("BTC/USD")];
    let frame = build_l3_unsubscribe("level3", &symbols, "TOKEN");
    match parse_message(&frame).unwrap() {
        Response::Level3Unsubscribe(u) => {
            assert_eq!(u.method, "unsubscribe");
            assert_eq!(u.params.symbol, symbols);
            assert_eq!(u.params.token, "TOKEN");
        },
        other => panic!("wrong variant: {:?}", other),
    }
}

#[test]
fn built_trade_subscribe_hits_the_level3_rule_first() {
    // a trade subscribe has no depth or token, so the Level-3 subscribe rule
    // fires first and its payload check fails: the frame is unclassifiable
    let symbols = vec![String::from("BTC/USD")];
    let frame = build_trade_subscribe("trade", &symbols);
    assert_eq!(parse_message(&frame).unwrap_err(), ParseError::UnrecognizedShape);
}

#[test]
fn subscribe_ack_classifies() {
    let text = "{\"method\":\"subscribe\",\"result\":{\"channel\":\"level3\",\"snapshot\":true,\
                 \"symbol\":\"BTC/USD\"},\"success\":true,\"time_in\":\"a\",\"time_out\":\"b\"}";
    match parse_message(text).unwrap() {
        Response::Level3SubscribeAck(a) => {
            assert!(a.success);
            assert_eq!(a.result.symbol, "BTC/USD");
        },
        other => panic!("wrong variant: {:?}", other),
    }
}

#[test]
fn unsubscribe_ack_classifies() {
    let text = "{\"method\":\"unsubscribe\",\"result\":{\"channel\":\"level3\",\
                 \"symbol\":\"BTC/USD\"},\"success\":true,\"time_in\":\"a\",\"time_out\":\"b\"}";
    match parse_message(text).unwrap() {
        Response::Level3UnsubscribeAck(a) => {
            assert!(a.success);
            assert_eq!(a.result.symbol, "BTC/USD");
        },
        other => panic!("wrong variant: {:?}", other),
    }
}

#[test]
fn string_escapes_decode() {
    let r = parse_message("{\"channel\":\"heartbeat\",\"note\":\"a\\nb\\\"c\\\\d\"}").unwrap();
    match r {
        Response::HeartBeat(h) => assert_eq!(h.channel, "heartbeat"),
        other => panic!("wrong variant: {:?}", other),
    }
}

#[test]
fn quantities_stay_exact() {
    let text = "{\"channel\":\"level3\",\"type\":\"snapshot\",\"data\":[{\"symbol\":\"S\",\
                 \"checksum\":0,\"bids\":[{\"order_id\":\"x\",\"limit_price\":0.00000001,\
                 \"order_qty\":0.10,\"timestamp\":\"t\"}],\"asks\":[]}]}";
    match parse_message(text).unwrap() {
        Response::Level3Snapshot(s) => {
            let bid = &s.data[0].bids[0];
            assert_eq!(bid.limit_price.units, 1);
            assert_eq!(bid.limit_price.scale, 8);
            assert_eq!(bid.order_qty.units, 10);
            assert_eq!(bid.order_qty.scale, 2);
        },
        other => panic!("wrong variant: {:?}", other),
    }
}
