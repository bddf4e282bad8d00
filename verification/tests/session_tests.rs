use data_engine::classifier::{parse_message, Response};
use data_engine::frames::{build_trade_subscribe, build_trade_unsubscribe};
use data_engine::session::{frame_kind, session_step, FrameKind, SessionAction, SessionInput, SessionState};
use data_engine::supervisor::{build_plans, ChannelKind};
use data_engine::config::{Api, Exchange, Websocket};

#[test]
fn happy_path_reaches_subscribed() {
    let (s, a) = session_step(SessionState::Init, SessionInput::Opened);
    assert_eq!(s, SessionState::Connected);
    assert_eq!(a, SessionAction::SendSubscribe);
    let (s, a) = session_step(s, SessionInput::SubscribeSent);
    assert_eq!(s, SessionState::Subscribed);
    assert_eq!(a, SessionAction::Idle);
}

#[test]
fn frames_dispatch_while_subscribed() {
    let (s, a) = session_step(SessionState::Subscribed, SessionInput::Text(FrameKind::BookSnapshot));
    assert_eq!(s, SessionState::Subscribed);
    assert_eq!(a, SessionAction::Dispatch(FrameKind::BookSnapshot));
    let (s, a) = session_step(s, SessionInput::TransportNoise);
    assert_eq!(s, SessionState::Subscribed);
    assert_eq!(a, SessionAction::Idle);
}

#[test]
fn shutdown_unsubscribes_once_then_stops() {
    // deliver one snapshot, then the shutdown signal
    let (s, a) = session_step(SessionState::Subscribed, SessionInput::Text(FrameKind::BookSnapshot));
    assert_eq!(a, SessionAction::Dispatch(FrameKind::BookSnapshot));
    let (s, a) = session_step(s, SessionInput::Shutdown);
    assert_eq!(s, SessionState::Closing);
    assert_eq!(a, SessionAction::SendUnsubscribe);
    // a second shutdown does not ask to unsubscribe again
    let (s, a) = session_step(s, SessionInput::Shutdown);
    assert_eq!(s, SessionState::Closing);
    assert_eq!(a, SessionAction::Idle);
    let (s, a) = session_step(s, SessionInput::UnsubscribeSent);
    assert_eq!(s, SessionState::Closed);
    assert_eq!(a, SessionAction::Stop);
}

#[test]
fn remote_close_ends_the_session() {
    let (s, a) = session_step(SessionState::Subscribed, SessionInput::RemoteClose);
    assert_eq!(s, SessionState::Closed);
    assert_eq!(a, SessionAction::Stop);
}

#[test]
fn connect_failure_ends_the_session() {
    let (s, a) = session_step(SessionState::Init, SessionInput::OpenFailed);
    assert_eq!(s, SessionState::Closed);
    assert_eq!(a, SessionAction::Stop);
}

#[test]
fn receive_errors_do_not_end_the_session() {
    let (s, a) = session_step(SessionState::Subscribed, SessionInput::RecvError);
    assert_eq!(s, SessionState::Subscribed);
    assert_eq!(a, SessionAction::Idle);
}

#[test]
fn frame_kinds_map_to_their_appliers() {
    let snap = parse_message("{\"channel\":\"level3\",\"type\":\"snapshot\",\"data\":[]}").unwrap();
    assert_eq!(frame_kind(&snap), FrameKind::BookSnapshot);
    let upd = parse_message("{\"channel\":\"level3\",\"type\":\"update\",\"data\":[]}").unwrap();
    assert_eq!(frame_kind(&upd), FrameKind::BookUpdate);
    let ts = parse_message("{\"channel\":\"trade\",\"type\":\"snapshot\",\"data\":[]}").unwrap();
    assert_eq!(frame_kind(&ts), FrameKind::TradeTape);
    let hb = parse_message("{\"channel\":\"heartbeat\"}").unwrap();
    assert_eq!(frame_kind(&hb), FrameKind::Informational);
    match hb {
        Response::HeartBeat(_) => {},
        other => panic!("wrong variant: {:?}", other),
    }
}

fn sample_exchange(name: &str) -> Exchange {
    Exchange {
        exchange: String::from(name),
        websocket_token: String::from("https://api.example.test/0/private/GetWebSocketsToken"),
        symbols: vec![String::from("BTC/USD")],
        apis: vec![Api {
            websockets: vec![
                Websocket {
                    channel: String::from("level3"),
                    endpoint: String::from("wss://ws.example.test/v2"),
                },
                Websocket {
                    channel: String::from("trade"),
                    endpoint: String::from("wss://ws.example.test/v2"),
                },
                Websocket {
                    channel: String::from("candles"),
                    endpoint: String::from("wss://ws.example.test/v2"),
                },
            ],
        }],
    }
}

#[test]
fn plans_cover_recognized_channels_only() {
    let plans = build_plans(&sample_exchange("Kraken"), "TOKEN");
    assert_eq!(plans.len(), 2);
    assert_eq!(plans[0].channel, ChannelKind::Level3);
    assert_eq!(plans[1].channel, ChannelKind::Trade);
    assert!(plans[0].subscribe_frame.contains("\"token\":\"TOKEN\""));
    assert!(plans[0].subscribe_frame.contains("\"depth\":10"));
    assert_eq!(
        plans[1].subscribe_frame,
        build_trade_subscribe("trade", &vec![String::from("BTC/USD")])
    );
    assert_eq!(
        plans[1].unsubscribe_frame,
        build_trade_unsubscribe("trade", &vec![String::from("BTC/USD")])
    );
}

#[test]
fn unrecognized_exchanges_are_skipped() {
    let plans = build_plans(&sample_exchange("Elsewhere"), "TOKEN");
    assert!(plans.is_empty());
}

#[test]
fn frame_text_is_exact() {
    let symbols = vec![String::from("BTC/USD"), String::from("ETH/USD")];
    let f = data_engine::frames::build_l3_subscribe("level3", &symbols, "T");
    assert_eq!(
        f,
        "{\"method\":\"subscribe\",\"params\":{\"channel\":\"level3\",\"depth\":10,\
         \"snapshot\":true,\"symbol\":[\"BTC/USD\",\"ETH/USD\"],\"token\":\"T\"}}"
    );
    let g = data_engine::frames::build_trade_unsubscribe("trade", &symbols);
    assert_eq!(
        g,
        "{\"method\":\"unsubscribe\",\"params\":{\"channel\":\"trade\",\"snapshot\":true,\
         \"symbol\":[\"BTC/USD\",\"ETH/USD\"]}}"
    );
}
