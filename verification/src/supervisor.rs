//! The supervisor's plan.
//!
//! For one configured exchange the supervisor decides which sessions to
//! run: only the venue named `Kraken` is recognized, and within it only the
//! `level3` and `trade` channels; anything else is skipped. Each planned
//! session carries its endpoint and its pre-built subscribe and unsubscribe
//! frames; the caller spawns one session per resolved book.

use vstd::prelude::*;
use vstd::string::*;
use crate::config::{Exchange, ExchangeV, ApiV, WebsocketV};
use crate::frames::{spec_l3_subscribe_frame, spec_l3_unsubscribe_frame, spec_trade_subscribe_frame, spec_trade_unsubscribe_frame, build_l3_subscribe, build_l3_unsubscribe, build_trade_subscribe, build_trade_unsubscribe};
use crate::strutil::str_eq;

verus! {

/// Which applier a planned session feeds.
#[derive(Clone, Copy, Debug, PartialEq, Eq, Structural)]
pub enum ChannelKind {
    Level3,
    Trade,
}

/// One session to run: where to connect and what to send.
#[derive(Clone, Debug, PartialEq, Eq)]
pub struct SessionPlan {
    pub endpoint: String,
    pub channel: ChannelKind,
    pub subscribe_frame: String,
    pub unsubscribe_frame: String,
}

pub struct SessionPlanV {
    pub endpoint: Seq<char>,
    pub channel: ChannelKind,
    pub subscribe_frame: Seq<char>,
    pub unsubscribe_frame: Seq<char>,
}

impl View for SessionPlan {
    type V = SessionPlanV;

    open spec fn view(&self) -> SessionPlanV {
        SessionPlanV {
            endpoint: self.endpoint@,
            channel: self.channel,
            subscribe_frame: self.subscribe_frame@,
            unsubscribe_frame: self.unsubscribe_frame@,
        }
    }
}

/// What one configured websocket contributes to the plan: a Level-3
/// session with token-bearing frames, a trade session with plain frames,
/// or nothing for an unrecognized channel name.
pub open spec fn spec_plans_for_ws(
    w: WebsocketV,
    symbols: Seq<Seq<char>>,
    token: Seq<char>,
) -> Seq<SessionPlanV> {
    if w.channel == "level3"@ {
        seq![
            SessionPlanV {
                endpoint: w.endpoint,
                channel: ChannelKind::Level3,
                subscribe_frame: spec_l3_subscribe_frame(w.channel, symbols, token),
                unsubscribe_frame: spec_l3_unsubscribe_frame(w.channel, symbols, token),
            },
        ]
    } else if w.channel == "trade"@ {
        seq![
            SessionPlanV {
                endpoint: w.endpoint,
                channel: ChannelKind::Trade,
                subscribe_frame: spec_trade_subscribe_frame(w.channel, symbols),
                unsubscribe_frame: spec_trade_unsubscribe_frame(w.channel, symbols),
            },
        ]
    } else {
        Seq::empty()
    }
}

pub open spec fn spec_plans_for_wss(
    ws: Seq<WebsocketV>,
    symbols: Seq<Seq<char>>,
    token: Seq<char>,
) -> Seq<SessionPlanV>
    decreases ws.len(),
{
    if ws.len() == 0 {
        Seq::empty()
    } else {
        spec_plans_for_ws(ws[0], symbols, token) + spec_plans_for_wss(
            ws.drop_first(),
            symbols,
            token,
        )
    }
}

pub open spec fn spec_plans_for_apis(
    apis: Seq<ApiV>,
    symbols: Seq<Seq<char>>,
    token: Seq<char>,
) -> Seq<SessionPlanV>
    decreases apis.len(),
{
    if apis.len() == 0 {
        Seq::empty()
    } else {
        spec_plans_for_wss(apis[0].websockets, symbols, token) + spec_plans_for_apis(
            apis.drop_first(),
            symbols,
            token,
        )
    }
}

/// The whole plan for one configured exchange: nothing for an unrecognized
/// venue, else one session per recognized channel of every API.
pub open spec fn spec_build_plans(ex: ExchangeV, token: Seq<char>) -> Seq<SessionPlanV> {
    if ex.exchange == "Kraken"@ {
        spec_plans_for_apis(ex.apis, ex.symbols, token)
    } else {
        Seq::empty()
    }
}

/// The views of a vector of plans.
pub open spec fn vplans(s: Seq<SessionPlan>) -> Seq<SessionPlanV> {
    Seq::new(s.len(), |i: int| s[i]@)
}

/// Builds the plan for one configured exchange, exactly as
/// [`spec_build_plans`] says.
#[verifier::loop_isolation(false)]
#[verifier::rlimit(60)]
pub fn build_plans(ex: &Exchange, token: &str) -> (r: Vec<SessionPlan>)
    ensures
        vplans(r@) == spec_build_plans(ex@, token@),
{
    let mut out: Vec<SessionPlan> = Vec::new();
    if !str_eq(ex.exchange.as_str(), "Kraken") {
        proof {
            assert(vplans(out@) =~= Seq::<SessionPlanV>::empty());
        }
        return out;
    }
    let ghost apis = ex@.apis;
    let ghost symbols = ex@.symbols;
    proof {
        assert(apis.subrange(0, apis.len() as int) =~= apis);
        assert(vplans(out@) =~= Seq::<SessionPlanV>::empty());
        assert(Seq::new(ex.symbols@.len(), |i: int| ex.symbols@[i]@) == symbols);
    }
    let ghost mut done: Seq<SessionPlanV> = Seq::empty();
    let mut a: usize = 0;
    while a < ex.apis.len()
        invariant
            a <= ex.apis@.len(),
            apis == ex@.apis,
            symbols == ex@.symbols,
            symbols == Seq::new(ex.symbols@.len(), |i: int| ex.symbols@[i]@),
            vplans(out@) == done,
            spec_plans_for_apis(apis, symbols, token@) == done + spec_plans_for_apis(
                apis.subrange(a as int, apis.len() as int),
                symbols,
                token@,
            ),
        decreases ex.apis@.len() - a,
    {
        let ghost asuffix = apis.subrange(a as int, apis.len() as int);
        proof {
            assert(asuffix[0] == apis[a as int]);
            assert(apis[a as int] == ex.apis@[a as int]@);
        }
        let ghost wss = apis[a as int].websockets;
        proof {
            assert(wss.subrange(0, wss.len() as int) =~= wss);
        }
        let ghost mut wdone: Seq<SessionPlanV> = Seq::empty();
        let mut w: usize = 0;
        while w < ex.apis[a].websockets.len()
            invariant
                a < ex.apis@.len(),
                w <= ex.apis@[a as int].websockets@.len(),
                apis == ex@.apis,
                symbols == ex@.symbols,
                symbols == Seq::new(ex.symbols@.len(), |i: int| ex.symbols@[i]@),
                wss == apis[a as int].websockets,
                wss == Seq::new(
                    ex.apis@[a as int].websockets@.len(),
                    |i: int| ex.apis@[a as int].websockets@[i]@,
                ),
                vplans(out@) == done + wdone,
                spec_plans_for_wss(wss, symbols, token@) == wdone + spec_plans_for_wss(
                    wss.subrange(w as int, wss.len() as int),
                    symbols,
                    token@,
                ),
            decreases ex.apis@[a as int].websockets@.len() - w,
        {
            let ghost wsuffix = wss.subrange(w as int, wss.len() as int);
            proof {
                assert(wsuffix[0] == wss[w as int]);
                assert(wss[w as int] == ex.apis@[a as int].websockets@[w as int]@);
            }
            let ws = &ex.apis[a].websockets[w];
            if str_eq(ws.channel.as_str(), "level3") {
                let plan = SessionPlan {
                    endpoint: ws.endpoint.clone(),
                    channel: ChannelKind::Level3,
                    subscribe_frame: build_l3_subscribe(ws.channel.as_str(), &ex.symbols, token),
                    unsubscribe_frame: build_l3_unsubscribe(
                        ws.channel.as_str(),
                        &ex.symbols,
                        token,
                    ),
                };
                let ghost pv = plan@;
                out.push(plan);
                proof {
                    assert(vplans(out@) =~= (done + wdone) + seq![pv]);
                    assert(spec_plans_for_ws(wsuffix[0], symbols, token@) =~= seq![pv]);
                }
            } else if str_eq(ws.channel.as_str(), "trade") {
                let plan = SessionPlan {
                    endpoint: ws.endpoint.clone(),
                    channel: ChannelKind::Trade,
                    subscribe_frame: build_trade_subscribe(ws.channel.as_str(), &ex.symbols),
                    unsubscribe_frame: build_trade_unsubscribe(ws.channel.as_str(), &ex.symbols),
                };
                let ghost pv = plan@;
                out.push(plan);
                proof {
                    assert(vplans(out@) =~= (done + wdone) + seq![pv]);
                    assert(spec_plans_for_ws(wsuffix[0], symbols, token@) =~= seq![pv]);
                }
            } else {
                proof {
                    assert(spec_plans_for_ws(wsuffix[0], symbols, token@) =~= Seq::<
                        SessionPlanV,
                    >::empty());
                }
            }
            proof {
                let step = spec_plans_for_ws(wsuffix[0], symbols, token@);
                assert(wsuffix.drop_first() =~= wss.subrange(w as int + 1, wss.len() as int));
                assert((done + wdone) + step =~= done + (wdone + step));
                assert(wdone + (step + spec_plans_for_wss(wsuffix.drop_first(), symbols, token@))
                    =~= (wdone + step) + spec_plans_for_wss(wsuffix.drop_first(), symbols, token@));
                wdone = wdone + step;
                assert(vplans(out@) =~= done + wdone);
            }
            w += 1;
        }
        proof {
            assert(wss.subrange(wss.len() as int, wss.len() as int).len() == 0);
            assert(spec_plans_for_wss(wss, symbols, token@) =~= wdone + Seq::<
                SessionPlanV,
            >::empty());
            assert(spec_plans_for_wss(wss, symbols, token@) =~= wdone);
            assert(asuffix.drop_first() =~= apis.subrange(a as int + 1, apis.len() as int));
            assert(done + (wdone + spec_plans_for_apis(asuffix.drop_first(), symbols, token@))
                =~= (done + wdone) + spec_plans_for_apis(asuffix.drop_first(), symbols, token@));
            done = done + wdone;
        }
        a += 1;
    }
    proof {
        assert(apis.subrange(ex.apis@.len() as int, apis.len() as int).len() == 0);
        assert(spec_plans_for_apis(apis, symbols, token@) =~= done + Seq::<SessionPlanV>::empty());
        assert(spec_plans_for_apis(apis, symbols, token@) =~= done);
    }
    out
}

} // verus!
