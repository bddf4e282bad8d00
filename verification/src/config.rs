//! The engine's configuration, as plain data.
//!
//! Loading the file is the caller's job; the library only consumes these
//! values.

use vstd::prelude::*;

verus! {

#[derive(Clone, Debug, PartialEq, Eq)]
pub struct Config {
    pub data_engine_server_configuration: DataEngineServerConfiguration,
    pub message_broker_server_configuration: MessageBrokerServerConfiguration,
    pub topics: Vec<String>,
    pub exchanges: Vec<Exchange>,
}

#[derive(Clone, Debug, PartialEq, Eq)]
pub struct DataEngineServerConfiguration {
    pub data_engine_server_settings: ServerSettings,
}

#[derive(Clone, Debug, PartialEq, Eq)]
pub struct MessageBrokerServerConfiguration {
    pub message_broker_server_settings: ServerSettings,
}

#[derive(Clone, Debug, PartialEq, Eq)]
pub struct ServerSettings {
    pub address: String,
    pub port: u16,
}

/// One configured venue: its name, its token endpoint, its symbols and its
/// websocket APIs.
#[derive(Clone, Debug, PartialEq, Eq)]
pub struct Exchange {
    pub exchange: String,
    pub websocket_token: String,
    pub symbols: Vec<String>,
    pub apis: Vec<Api>,
}

#[derive(Clone, Debug, PartialEq, Eq)]
pub struct Api {
    pub websockets: Vec<Websocket>,
}

#[derive(Clone, Debug, PartialEq, Eq)]
pub struct Websocket {
    pub channel: String,
    pub endpoint: String,
}

pub struct WebsocketV {
    pub channel: Seq<char>,
    pub endpoint: Seq<char>,
}

impl View for Websocket {
    type V = WebsocketV;

    open spec fn view(&self) -> WebsocketV {
        WebsocketV { channel: self.channel@, endpoint: self.endpoint@ }
    }
}

pub struct ApiV {
    pub websockets: Seq<WebsocketV>,
}

impl View for Api {
    type V = ApiV;

    open spec fn view(&self) -> ApiV {
        ApiV { websockets: Seq::new(self.websockets@.len(), |i: int| self.websockets@[i]@) }
    }
}

pub struct ExchangeV {
    pub exchange: Seq<char>,
    pub websocket_token: Seq<char>,
    pub symbols: Seq<Seq<char>>,
    pub apis: Seq<ApiV>,
}

impl View for Exchange {
    type V = ExchangeV;

    open spec fn view(&self) -> ExchangeV {
        ExchangeV {
            exchange: self.exchange@,
            websocket_token: self.websocket_token@,
            symbols: Seq::new(self.symbols@.len(), |i: int| self.symbols@[i]@),
            apis: Seq::new(self.apis@.len(), |i: int| self.apis@[i]@),
        }
    }
}

} // verus!
