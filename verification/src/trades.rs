//! The trade applier.
//!
//! Trades are append-only: each element of a trade frame becomes one cache
//! entry and one store row, in frame order; no aggregate is kept. A frame
//! on another channel is a no-op, as is an empty one.

use vstd::prelude::*;
use crate::classifier::{TradeData, TradeDataV, TradeSnapshot, TradeUpdate};
use crate::strutil::str_eq;

verus! {

/// One cache or store write for a trade, in order.
#[derive(Clone, Debug, PartialEq, Eq)]
pub enum TradeEffect {
    /// Write the trade's hash entry under its id.
    CacheSetTrade { trade: TradeData },
    /// Append the trade row to the store.
    StoreCreateTrade { trade: TradeData },
}

pub enum TradeEffectV {
    CacheSetTrade { trade: TradeDataV },
    StoreCreateTrade { trade: TradeDataV },
}

impl View for TradeEffect {
    type V = TradeEffectV;

    open spec fn view(&self) -> TradeEffectV {
        match self {
            TradeEffect::CacheSetTrade { trade } => TradeEffectV::CacheSetTrade { trade: trade@ },
            TradeEffect::StoreCreateTrade { trade } => TradeEffectV::StoreCreateTrade {
                trade: trade@,
            },
        }
    }
}

/// The views of a vector of trade effects.
pub open spec fn vtrade_effects(s: Seq<TradeEffect>) -> Seq<TradeEffectV> {
    Seq::new(s.len(), |i: int| s[i]@)
}

/// The cache writes for the trades, in frame order.
pub open spec fn spec_trade_cache_effects(ts: Seq<TradeDataV>) -> Seq<TradeEffectV>
    decreases ts.len(),
{
    if ts.len() == 0 {
        Seq::empty()
    } else {
        seq![TradeEffectV::CacheSetTrade { trade: ts[0] }] + spec_trade_cache_effects(
            ts.drop_first(),
        )
    }
}

/// The store rows for the trades, in frame order.
pub open spec fn spec_trade_store_effects(ts: Seq<TradeDataV>) -> Seq<TradeEffectV>
    decreases ts.len(),
{
    if ts.len() == 0 {
        Seq::empty()
    } else {
        seq![TradeEffectV::StoreCreateTrade { trade: ts[0] }] + spec_trade_store_effects(
            ts.drop_first(),
        )
    }
}

/// What applying a trade frame yields: outside the `trade` channel nothing;
/// otherwise all the cache writes in frame order, then all the store rows
/// in frame order.
pub open spec fn spec_process_trades(channel: Seq<char>, ts: Seq<TradeDataV>) -> Seq<
    TradeEffectV,
> {
    if channel != "trade"@ {
        Seq::empty()
    } else {
        spec_trade_cache_effects(ts) + spec_trade_store_effects(ts)
    }
}

/// The views of a vector of trades.
pub open spec fn vtrades(s: Seq<TradeData>) -> Seq<TradeDataV> {
    Seq::new(s.len(), |i: int| s[i]@)
}

/// Emits the writes for one trade frame, exactly as `spec_process_trades`
/// says.
#[verifier::loop_isolation(false)]
fn process_trades(channel: &String, data: &Vec<TradeData>) -> (r: Vec<TradeEffect>)
    ensures
        vtrade_effects(r@) == spec_process_trades(channel@, vtrades(data@)),
{
    let mut out: Vec<TradeEffect> = Vec::new();
    if !str_eq(channel.as_str(), "trade") {
        proof {
            assert(vtrade_effects(out@) =~= Seq::<TradeEffectV>::empty());
        }
        return out;
    }
    let ghost ts = vtrades(data@);
    proof {
        assert(ts.subrange(0, ts.len() as int) =~= ts);
        assert(vtrade_effects(out@) =~= Seq::<TradeEffectV>::empty());
    }
    let ghost mut done: Seq<TradeEffectV> = Seq::empty();
    let mut i: usize = 0;
    while i < data.len()
        invariant
            i <= data@.len(),
            spec_trade_cache_effects(ts) == done + spec_trade_cache_effects(
                ts.subrange(i as int, ts.len() as int),
            ),
            vtrade_effects(out@) == done,
        decreases data@.len() - i,
    {
        let ghost suffix = ts.subrange(i as int, ts.len() as int);
        let t = copy_trade(&data[i]);
        out.push(TradeEffect::CacheSetTrade { trade: t });
        proof {
            assert(suffix[0] == ts[i as int]);
            assert(suffix.drop_first() =~= ts.subrange(i as int + 1, ts.len() as int));
            let step: Seq<TradeEffectV> = seq![TradeEffectV::CacheSetTrade { trade: suffix[0] }];
            assert(vtrade_effects(out@) =~= done + step);
            assert(done + (step + spec_trade_cache_effects(suffix.drop_first())) =~= (done + step)
                + spec_trade_cache_effects(suffix.drop_first()));
            done = done + step;
        }
        i += 1;
    }
    proof {
        assert(ts.subrange(data@.len() as int, ts.len() as int).len() == 0);
        assert(spec_trade_cache_effects(ts) =~= done + Seq::<TradeEffectV>::empty());
        assert(spec_trade_cache_effects(ts) =~= done);
    }
    let ghost cache_done = done;
    let ghost mut done2: Seq<TradeEffectV> = Seq::empty();
    let mut j: usize = 0;
    while j < data.len()
        invariant
            j <= data@.len(),
            spec_trade_store_effects(ts) == done2 + spec_trade_store_effects(
                ts.subrange(j as int, ts.len() as int),
            ),
            vtrade_effects(out@) == cache_done + done2,
        decreases data@.len() - j,
    {
        let ghost suffix = ts.subrange(j as int, ts.len() as int);
        let t = copy_trade(&data[j]);
        out.push(TradeEffect::StoreCreateTrade { trade: t });
        proof {
            assert(suffix[0] == ts[j as int]);
            assert(suffix.drop_first() =~= ts.subrange(j as int + 1, ts.len() as int));
            let step: Seq<TradeEffectV> = seq![TradeEffectV::StoreCreateTrade { trade: suffix[0] }];
            assert(vtrade_effects(out@) =~= (cache_done + done2) + step);
            assert((cache_done + done2) + step =~= cache_done + (done2 + step));
            assert(done2 + (step + spec_trade_store_effects(suffix.drop_first())) =~= (done2
                + step) + spec_trade_store_effects(suffix.drop_first()));
            done2 = done2 + step;
        }
        j += 1;
    }
    proof {
        assert(ts.subrange(data@.len() as int, ts.len() as int).len() == 0);
        assert(spec_trade_store_effects(ts) =~= done2 + Seq::<TradeEffectV>::empty());
        assert(spec_trade_store_effects(ts) =~= done2);
        assert(vtrade_effects(out@) =~= spec_trade_cache_effects(ts) + spec_trade_store_effects(
            ts,
        ));
    }
    out
}

/// A field-for-field copy of one trade.
fn copy_trade(t: &TradeData) -> (r: TradeData)
    ensures
        r@ == t@,
{
    TradeData {
        symbol: t.symbol.clone(),
        side: t.side.clone(),
        price: t.price,
        qty: t.qty,
        ord_type: t.ord_type.clone(),
        trade_id: t.trade_id,
        timestamp: t.timestamp.clone(),
    }
}

impl TradeSnapshot {
    /// Emits the writes for this trade snapshot, exactly as
    /// [`spec_process_trades`] says over its channel and trades.
    pub fn process_snapshot(&self) -> (r: Vec<TradeEffect>)
        ensures
            vtrade_effects(r@) == spec_process_trades(self@.channel, self@.data),
    {
        proof {
            assert(vtrades(self.data@) =~= self@.data);
        }
        process_trades(&self.channel, &self.data)
    }
}

impl TradeUpdate {
    /// Emits the writes for this trade update, exactly as
    /// [`spec_process_trades`] says over its channel and trades.
    pub fn process_update(&self) -> (r: Vec<TradeEffect>)
        ensures
            vtrade_effects(r@) == spec_process_trades(self@.channel, self@.data),
    {
        proof {
            assert(vtrades(self.data@) =~= self@.data);
        }
        process_trades(&self.channel, &self.data)
    }
}

} // verus!
