//! The message classifier.
//!
//! One text frame comes in; one tagged variant of [`Response`] comes out.
//! Classification looks at the shape of the root JSON object, testing the
//! rules in a fixed priority order, first match wins; the chosen rule then
//! reads the typed payload. [`spec_classify`] is the whole table.

use vstd::prelude::*;
use crate::json::{Json, JsonV, json_view, json_view_members, json_view_seq, lemma_json_view_members, lemma_json_view_seq, spec_parse_json, parse_json_chars};
use crate::decimal::{Dec, spec_parse_dec, parse_dec_chars, dec_wf, is_digit, digits_val, all_digits};
use crate::strutil::chars_to_string;
use vstd::string::*;

verus! {

broadcast use {
    vstd::std_specs::vec::axiom_vec_index_decreases,
    vstd::seq::axiom_seq_index_decreases,
};

/// The value of the first member of `ms` named `key`, if any.
pub open spec fn obj_get(ms: Seq<(Seq<char>, JsonV)>, key: Seq<char>) -> Option<JsonV>
    decreases ms.len(),
{
    if ms.len() == 0 {
        None
    } else if ms[0].0 == key {
        Some(ms[0].1)
    } else {
        obj_get(ms.drop_first(), key)
    }
}

pub open spec fn spec_as_str(j: JsonV) -> Option<Seq<char>> {
    match j {
        JsonV::Str(s) => Some(s),
        _ => None,
    }
}

pub open spec fn spec_as_bool(j: JsonV) -> Option<bool> {
    match j {
        JsonV::Bool(b) => Some(b),
        _ => None,
    }
}

/// An unsigned integer field: a plain run of digits whose value fits `u64`.
pub open spec fn spec_parse_u64(t: Seq<char>) -> Option<u64> {
    if t.len() >= 1 && t.len() <= 20 && all_digits(t) && digits_val(t) <= u64::MAX {
        Some(digits_val(t) as u64)
    } else {
        None
    }
}

pub open spec fn spec_as_u64(j: JsonV) -> Option<u64> {
    match j {
        JsonV::Num(t) => spec_parse_u64(t),
        _ => None,
    }
}

/// A signed integer field: an optional minus then digits, fitting `i64`.
pub open spec fn spec_parse_i64(t: Seq<char>) -> Option<i64> {
    if t.len() >= 1 && t[0] == '-' {
        match spec_parse_u64(t.drop_first()) {
            Some(m) => if m <= i64::MAX as u64 + 1 {
                Some((-(m as int)) as i64)
            } else {
                None
            },
            None => None,
        }
    } else {
        match spec_parse_u64(t) {
            Some(m) => if m <= i64::MAX as u64 {
                Some(m as i64)
            } else {
                None
            },
            None => None,
        }
    }
}

pub open spec fn spec_as_i64(j: JsonV) -> Option<i64> {
    match j {
        JsonV::Num(t) => spec_parse_i64(t),
        _ => None,
    }
}

/// A decimal field: a JSON number or a decimal in a string, kept exact.
pub open spec fn spec_as_dec(j: JsonV) -> Option<Dec> {
    match j {
        JsonV::Num(t) => spec_parse_dec(t),
        JsonV::Str(t) => spec_parse_dec(t),
        _ => None,
    }
}

/// A list of strings, all elements or nothing.
pub open spec fn spec_str_list(a: Seq<JsonV>, i: int) -> Option<Seq<Seq<char>>>
    decreases a.len() - i,
    when 0 <= i <= a.len()
{
    if i == a.len() {
        Some(Seq::empty())
    } else {
        match spec_as_str(a[i]) {
            Some(s) => match spec_str_list(a, i + 1) {
                Some(rest) => Some(seq![s] + rest),
                None => None,
            },
            None => None,
        }
    }
}

/// Tests whether a character vector spells the same text as a string slice.
pub fn chars_eq_str(v: &Vec<char>, s: &str) -> (r: bool)
    ensures
        r == (v@ == s@),
{
    let n = s.unicode_len();
    if v.len() != n {
        assert(v@ != s@);
        return false;
    }
    let mut i: usize = 0;
    while i < n
        invariant
            i <= n,
            n == s@.len() == v@.len(),
            forall|k: int| 0 <= k < i ==> v@[k] == s@[k],
        decreases n - i,
    {
        if v[i] != s.get_char(i) {
            assert(v@ != s@);
            return false;
        }
        i += 1;
    }
    proof {
        assert(v@ =~= s@);
    }
    true
}

/// Looks a member up by name, as [`obj_get`] says.
fn obj_get_exec<'a>(o: &'a Vec<(Vec<char>, Json)>, key: &str) -> (r: Option<&'a Json>)
    ensures
        match r {
            Some(j) => obj_get(json_view_members(o@), key@) == Some(json_view(*j)),
            None => obj_get(json_view_members(o@), key@) is None,
        },
{
    let mut i: usize = 0;
    proof {
        lemma_json_view_members(o@);
        assert(json_view_members(o@).subrange(0, o@.len() as int) =~= json_view_members(o@));
    }
    while i < o.len()
        invariant
            i <= o@.len(),
            json_view_members(o@).len() == o@.len(),
            forall|k: int|
                0 <= k < o@.len() ==> json_view_members(o@)[k] == (o@[k].0@, json_view(o@[k].1)),
            obj_get(json_view_members(o@), key@) == obj_get(
                json_view_members(o@).subrange(i as int, o@.len() as int),
                key@,
            ),
        decreases o@.len() - i,
    {
        let ghost ms = json_view_members(o@);
        let ghost suffix = ms.subrange(i as int, o@.len() as int);
        if chars_eq_str(&o[i].0, key) {
            proof {
                assert(suffix[0] == ms[i as int]);
                assert(suffix[0].0 == key@);
            }
            return Some(&o[i].1);
        }
        proof {
            assert(suffix[0] == ms[i as int]);
            assert(suffix[0].0 != key@);
            assert(suffix.drop_first() =~= ms.subrange(i as int + 1, o@.len() as int));
        }
        i += 1;
    }
    proof {
        assert(json_view_members(o@).subrange(i as int, o@.len() as int).len() == 0);
    }
    None
}

fn as_str_exec(j: &Json) -> (r: Option<String>)
    ensures
        match r {
            Some(s) => spec_as_str(json_view(*j)) == Some(s@),
            None => spec_as_str(json_view(*j)) is None,
        },
{
    match j {
        Json::Str(v) => Some(chars_to_string(v)),
        _ => None,
    }
}

fn as_bool_exec(j: &Json) -> (r: Option<bool>)
    ensures
        r == spec_as_bool(json_view(*j)),
{
    match j {
        Json::Bool(b) => Some(*b),
        _ => None,
    }
}

#[verifier::loop_isolation(false)]
fn parse_u64_chars(t: &Vec<char>) -> (r: Option<u64>)
    ensures
        r == spec_parse_u64(t@),
{
    let n = t.len();
    if n < 1 || n > 20 {
        return None;
    }
    let mut acc: u64 = 0;
    let mut overflow = false;
    let mut i: usize = 0;
    while i < n
        invariant
            i <= n == t@.len(),
            1 <= n <= 20,
            forall|k: int| 0 <= k < i ==> is_digit(t@[k]),
            !overflow ==> acc == digits_val(t@.subrange(0, i as int)),
            overflow ==> digits_val(t@.subrange(0, i as int)) > u64::MAX,
        decreases n - i,
    {
        let c = t[i];
        if !crate::decimal::is_digit_exec(c) {
            return None;
        }
        let d = (c as u32 - '0' as u32) as u64;
        proof {
            assert(t@.subrange(0, i as int + 1).drop_last() =~= t@.subrange(0, i as int));
            assert(t@.subrange(0, i as int + 1).last() == t@[i as int]);
            assert(d == crate::decimal::digit_val(t@[i as int]));
        }
        if overflow {
            proof {
                let pre = t@.subrange(0, i as int);
                let cur = t@.subrange(0, i as int + 1);
                assert(digits_val(cur) == digits_val(pre) * 10 + crate::decimal::digit_val(
                    t@[i as int],
                ));
                assert(digits_val(pre) * 10 >= digits_val(pre)) by (nonlinear_arith)
                    requires
                        digits_val(pre) >= 0,
                ;
            }
        } else {
            match acc.checked_mul(10) {
                Some(m) => match m.checked_add(d) {
                    Some(s) => {
                        acc = s;
                    },
                    None => {
                        overflow = true;
                    },
                },
                None => {
                    overflow = true;
                },
            }
            proof {
                let pre = t@.subrange(0, i as int);
                let cur = t@.subrange(0, i as int + 1);
                assert(digits_val(cur) == digits_val(pre) * 10 + crate::decimal::digit_val(
                    t@[i as int],
                ));
            }
        }
        i += 1;
    }
    proof {
        assert(t@.subrange(0, n as int) =~= t@);
    }
    if overflow {
        None
    } else {
        Some(acc)
    }
}

fn as_u64_exec(j: &Json) -> (r: Option<u64>)
    ensures
        r == spec_as_u64(json_view(*j)),
{
    match j {
        Json::Num(t) => parse_u64_chars(t),
        _ => None,
    }
}

fn as_i64_exec(j: &Json) -> (r: Option<i64>)
    ensures
        r == spec_as_i64(json_view(*j)),
{
    match j {
        Json::Num(t) => {
            if t.len() >= 1 && t[0] == '-' {
                let mut rest: Vec<char> = Vec::new();
                let mut k: usize = 1;
                while k < t.len()
                    invariant
                        1 <= k <= t@.len(),
                        rest@ =~= t@.subrange(1, k as int),
                    decreases t@.len() - k,
                {
                    rest.push(t[k]);
                    k += 1;
                    assert(rest@ =~= t@.subrange(1, k as int));
                }
                proof {
                    assert(rest@ =~= t@.drop_first());
                }
                match parse_u64_chars(&rest) {
                    Some(m) => {
                        if m <= 9223372036854775808u64 {
                            Some((-(m as i128)) as i64)
                        } else {
                            None
                        }
                    },
                    None => None,
                }
            } else {
                match parse_u64_chars(t) {
                    Some(m) => {
                        if m <= 9223372036854775807u64 {
                            Some(m as i64)
                        } else {
                            None
                        }
                    },
                    None => None,
                }
            }
        },
        _ => None,
    }
}

fn as_dec_exec(j: &Json) -> (r: Option<Dec>)
    ensures
        r == spec_as_dec(json_view(*j)),
        r is Some ==> dec_wf(r->0),
{
    match j {
        Json::Num(t) => parse_dec_chars(t),
        Json::Str(t) => parse_dec_chars(t),
        _ => None,
    }
}

// ---------------------------------------------------------------------
// The typed frames.

#[derive(Clone, Debug, PartialEq, Eq)]
pub struct TokenResponse {
    pub error: Vec<String>,
    pub result: TokenResultData,
}

#[derive(Clone, Debug, PartialEq, Eq)]
pub struct TokenResultData {
    pub token: String,
    pub expires: u64,
}

pub struct TokenResultDataV {
    pub token: Seq<char>,
    pub expires: u64,
}

pub struct TokenResponseV {
    pub error: Seq<Seq<char>>,
    pub result: TokenResultDataV,
}

impl View for TokenResultData {
    type V = TokenResultDataV;

    open spec fn view(&self) -> TokenResultDataV {
        TokenResultDataV { token: self.token@, expires: self.expires }
    }
}

impl View for TokenResponse {
    type V = TokenResponseV;

    open spec fn view(&self) -> TokenResponseV {
        TokenResponseV {
            error: Seq::new(self.error@.len(), |i: int| self.error@[i]@),
            result: self.result@,
        }
    }
}

impl TokenResponse {
    /// The session token carried by the reply.
    pub fn get_token(&self) -> (r: String)
        ensures
            r@ == self@.result.token,
    {
        let mut out = String::new();
        out.append(self.result.token.as_str());
        out
    }
}

#[derive(Clone, Debug, PartialEq, Eq)]
pub struct Status {
    pub channel: String,
    pub data: Vec<StatusData>,
    pub kind: String,
}

#[derive(Clone, Debug, PartialEq, Eq)]
pub struct StatusData {
    pub api_version: String,
    pub connection_id: u64,
    pub system: String,
    pub version: String,
}

pub struct StatusDataV {
    pub api_version: Seq<char>,
    pub connection_id: u64,
    pub system: Seq<char>,
    pub version: Seq<char>,
}

pub struct StatusV {
    pub channel: Seq<char>,
    pub data: Seq<StatusDataV>,
    pub kind: Seq<char>,
}

impl View for StatusData {
    type V = StatusDataV;

    open spec fn view(&self) -> StatusDataV {
        StatusDataV {
            api_version: self.api_version@,
            connection_id: self.connection_id,
            system: self.system@,
            version: self.version@,
        }
    }
}

impl View for Status {
    type V = StatusV;

    open spec fn view(&self) -> StatusV {
        StatusV {
            channel: self.channel@,
            data: Seq::new(self.data@.len(), |i: int| self.data@[i]@),
            kind: self.kind@,
        }
    }
}

#[derive(Clone, Debug, PartialEq, Eq)]
pub struct HeartBeat {
    pub channel: String,
}

pub struct HeartBeatV {
    pub channel: Seq<char>,
}

impl View for HeartBeat {
    type V = HeartBeatV;

    open spec fn view(&self) -> HeartBeatV {
        HeartBeatV { channel: self.channel@ }
    }
}

#[derive(Clone, Debug, PartialEq, Eq)]
pub struct Level3Subscribe {
    pub method: String,
    pub params: Level3SubscribeParams,
}

#[derive(Clone, Debug, PartialEq, Eq)]
pub struct Level3SubscribeParams {
    pub channel: String,
    pub symbol: Vec<String>,
    pub depth: u64,
    pub snapshot: bool,
    pub token: String,
}

pub struct Level3SubscribeParamsV {
    pub channel: Seq<char>,
    pub symbol: Seq<Seq<char>>,
    pub depth: u64,
    pub snapshot: bool,
    pub token: Seq<char>,
}

pub struct Level3SubscribeV {
    pub method: Seq<char>,
    pub params: Level3SubscribeParamsV,
}

impl View for Level3SubscribeParams {
    type V = Level3SubscribeParamsV;

    open spec fn view(&self) -> Level3SubscribeParamsV {
        Level3SubscribeParamsV {
            channel: self.channel@,
            symbol: Seq::new(self.symbol@.len(), |i: int| self.symbol@[i]@),
            depth: self.depth,
            snapshot: self.snapshot,
            token: self.token@,
        }
    }
}

impl View for Level3Subscribe {
    type V = Level3SubscribeV;

    open spec fn view(&self) -> Level3SubscribeV {
        Level3SubscribeV { method: self.method@, params: self.params@ }
    }
}

#[derive(Clone, Debug, PartialEq, Eq)]
pub struct Level3Unsubscribe {
    pub method: String,
    pub params: Level3UnsubscribeParams,
}

#[derive(Clone, Debug, PartialEq, Eq)]
pub struct Level3UnsubscribeParams {
    pub channel: String,
    pub symbol: Vec<String>,
    pub token: String,
}

pub struct Level3UnsubscribeParamsV {
    pub channel: Seq<char>,
    pub symbol: Seq<Seq<char>>,
    pub token: Seq<char>,
}

pub struct Level3UnsubscribeV {
    pub method: Seq<char>,
    pub params: Level3UnsubscribeParamsV,
}

impl View for Level3UnsubscribeParams {
    type V = Level3UnsubscribeParamsV;

    open spec fn view(&self) -> Level3UnsubscribeParamsV {
        Level3UnsubscribeParamsV {
            channel: self.channel@,
            symbol: Seq::new(self.symbol@.len(), |i: int| self.symbol@[i]@),
            token: self.token@,
        }
    }
}

impl View for Level3Unsubscribe {
    type V = Level3UnsubscribeV;

    open spec fn view(&self) -> Level3UnsubscribeV {
        Level3UnsubscribeV { method: self.method@, params: self.params@ }
    }
}

#[derive(Clone, Debug, PartialEq, Eq)]
pub struct Level3SubscribeAcknowledgement {
    pub method: String,
    pub result: Level3SubscribeResonseData,
    pub success: bool,
    pub time_in: String,
    pub time_out: String,
}

#[derive(Clone, Debug, PartialEq, Eq)]
pub struct Level3SubscribeResonseData {
    pub channel: String,
    pub snapshot: bool,
    pub symbol: String,
}

pub struct Level3SubscribeResonseDataV {
    pub channel: Seq<char>,
    pub snapshot: bool,
    pub symbol: Seq<char>,
}

pub struct Level3SubscribeAcknowledgementV {
    pub method: Seq<char>,
    pub result: Level3SubscribeResonseDataV,
    pub success: bool,
    pub time_in: Seq<char>,
    pub time_out: Seq<char>,
}

impl View for Level3SubscribeResonseData {
    type V = Level3SubscribeResonseDataV;

    open spec fn view(&self) -> Level3SubscribeResonseDataV {
        Level3SubscribeResonseDataV {
            channel: self.channel@,
            snapshot: self.snapshot,
            symbol: self.symbol@,
        }
    }
}

impl View for Level3SubscribeAcknowledgement {
    type V = Level3SubscribeAcknowledgementV;

    open spec fn view(&self) -> Level3SubscribeAcknowledgementV {
        Level3SubscribeAcknowledgementV {
            method: self.method@,
            result: self.result@,
            success: self.success,
            time_in: self.time_in@,
            time_out: self.time_out@,
        }
    }
}

#[derive(Clone, Debug, PartialEq, Eq)]
pub struct Level3UnsubscribeAcknowledgement {
    pub method: String,
    pub result: UnsubscribeResonseData,
    pub success: bool,
    pub time_in: String,
    pub time_out: String,
}

#[derive(Clone, Debug, PartialEq, Eq)]
pub struct UnsubscribeResonseData {
    pub channel: String,
    pub symbol: String,
}

pub struct UnsubscribeResonseDataV {
    pub channel: Seq<char>,
    pub symbol: Seq<char>,
}

pub struct Level3UnsubscribeAcknowledgementV {
    pub method: Seq<char>,
    pub result: UnsubscribeResonseDataV,
    pub success: bool,
    pub time_in: Seq<char>,
    pub time_out: Seq<char>,
}

impl View for UnsubscribeResonseData {
    type V = UnsubscribeResonseDataV;

    open spec fn view(&self) -> UnsubscribeResonseDataV {
        UnsubscribeResonseDataV { channel: self.channel@, symbol: self.symbol@ }
    }
}

impl View for Level3UnsubscribeAcknowledgement {
    type V = Level3UnsubscribeAcknowledgementV;

    open spec fn view(&self) -> Level3UnsubscribeAcknowledgementV {
        Level3UnsubscribeAcknowledgementV {
            method: self.method@,
            result: self.result@,
            success: self.success,
            time_in: self.time_in@,
            time_out: self.time_out@,
        }
    }
}

#[derive(Clone, Debug, PartialEq, Eq)]
pub struct TradeSubscribe {
    pub method: String,
    pub params: TradeSubscribeParams,
}

#[derive(Clone, Debug, PartialEq, Eq)]
pub struct TradeSubscribeParams {
    pub channel: String,
    pub symbol: Vec<String>,
    pub snapshot: bool,
}

pub struct TradeSubscribeParamsV {
    pub channel: Seq<char>,
    pub symbol: Seq<Seq<char>>,
    pub snapshot: bool,
}

pub struct TradeSubscribeV {
    pub method: Seq<char>,
    pub params: TradeSubscribeParamsV,
}

impl View for TradeSubscribeParams {
    type V = TradeSubscribeParamsV;

    open spec fn view(&self) -> TradeSubscribeParamsV {
        TradeSubscribeParamsV {
            channel: self.channel@,
            symbol: Seq::new(self.symbol@.len(), |i: int| self.symbol@[i]@),
            snapshot: self.snapshot,
        }
    }
}

impl View for TradeSubscribe {
    type V = TradeSubscribeV;

    open spec fn view(&self) -> TradeSubscribeV {
        TradeSubscribeV { method: self.method@, params: self.params@ }
    }
}

#[derive(Clone, Debug, PartialEq, Eq)]
pub struct TradeUnsubscribe {
    pub method: String,
    pub params: TradeUnsubscribeParams,
}

#[derive(Clone, Debug, PartialEq, Eq)]
pub struct TradeUnsubscribeParams {
    pub channel: String,
    pub symbol: Vec<String>,
    pub snapshot: bool,
}

pub struct TradeUnsubscribeParamsV {
    pub channel: Seq<char>,
    pub symbol: Seq<Seq<char>>,
    pub snapshot: bool,
}

pub struct TradeUnsubscribeV {
    pub method: Seq<char>,
    pub params: TradeUnsubscribeParamsV,
}

impl View for TradeUnsubscribeParams {
    type V = TradeUnsubscribeParamsV;

    open spec fn view(&self) -> TradeUnsubscribeParamsV {
        TradeUnsubscribeParamsV {
            channel: self.channel@,
            symbol: Seq::new(self.symbol@.len(), |i: int| self.symbol@[i]@),
            snapshot: self.snapshot,
        }
    }
}

impl View for TradeUnsubscribe {
    type V = TradeUnsubscribeV;

    open spec fn view(&self) -> TradeUnsubscribeV {
        TradeUnsubscribeV { method: self.method@, params: self.params@ }
    }
}

#[derive(Clone, Debug, PartialEq, Eq)]
pub struct TradeSubscribeAcknowledgement {
    pub method: String,
    pub result: TradeSubscribeResonseData,
    pub success: bool,
    pub time_in: String,
    pub time_out: String,
}

#[derive(Clone, Debug, PartialEq, Eq)]
pub struct TradeSubscribeResonseData {
    pub channel: String,
    pub snapshot: bool,
    pub symbol: String,
}

pub struct TradeSubscribeResonseDataV {
    pub channel: Seq<char>,
    pub snapshot: bool,
    pub symbol: Seq<char>,
}

pub struct TradeSubscribeAcknowledgementV {
    pub method: Seq<char>,
    pub result: TradeSubscribeResonseDataV,
    pub success: bool,
    pub time_in: Seq<char>,
    pub time_out: Seq<char>,
}

impl View for TradeSubscribeResonseData {
    type V = TradeSubscribeResonseDataV;

    open spec fn view(&self) -> TradeSubscribeResonseDataV {
        TradeSubscribeResonseDataV {
            channel: self.channel@,
            snapshot: self.snapshot,
            symbol: self.symbol@,
        }
    }
}

impl View for TradeSubscribeAcknowledgement {
    type V = TradeSubscribeAcknowledgementV;

    open spec fn view(&self) -> TradeSubscribeAcknowledgementV {
        TradeSubscribeAcknowledgementV {
            method: self.method@,
            result: self.result@,
            success: self.success,
            time_in: self.time_in@,
            time_out: self.time_out@,
        }
    }
}

#[derive(Clone, Debug, PartialEq, Eq)]
pub struct TradeUnsubscribeAcknowledgement {
    pub method: String,
    pub result: TradeUnsubscribeResonseData,
    pub success: bool,
    pub time_in: String,
    pub time_out: String,
}

#[derive(Clone, Debug, PartialEq, Eq)]
pub struct TradeUnsubscribeResonseData {
    pub channel: String,
    pub symbol: String,
}

pub struct TradeUnsubscribeResonseDataV {
    pub channel: Seq<char>,
    pub symbol: Seq<char>,
}

pub struct TradeUnsubscribeAcknowledgementV {
    pub method: Seq<char>,
    pub result: TradeUnsubscribeResonseDataV,
    pub success: bool,
    pub time_in: Seq<char>,
    pub time_out: Seq<char>,
}

impl View for TradeUnsubscribeResonseData {
    type V = TradeUnsubscribeResonseDataV;

    open spec fn view(&self) -> TradeUnsubscribeResonseDataV {
        TradeUnsubscribeResonseDataV { channel: self.channel@, symbol: self.symbol@ }
    }
}

impl View for TradeUnsubscribeAcknowledgement {
    type V = TradeUnsubscribeAcknowledgementV;

    open spec fn view(&self) -> TradeUnsubscribeAcknowledgementV {
        TradeUnsubscribeAcknowledgementV {
            method: self.method@,
            result: self.result@,
            success: self.success,
            time_in: self.time_in@,
            time_out: self.time_out@,
        }
    }
}

#[derive(Clone, Debug, PartialEq, Eq)]
pub struct SnapshotOrder {
    pub order_id: String,
    pub limit_price: Dec,
    pub order_qty: Dec,
    pub timestamp: String,
}

pub struct SnapshotOrderV {
    pub order_id: Seq<char>,
    pub limit_price: Dec,
    pub order_qty: Dec,
    pub timestamp: Seq<char>,
}

impl View for SnapshotOrder {
    type V = SnapshotOrderV;

    open spec fn view(&self) -> SnapshotOrderV {
        SnapshotOrderV {
            order_id: self.order_id@,
            limit_price: self.limit_price,
            order_qty: self.order_qty,
            timestamp: self.timestamp@,
        }
    }
}

#[derive(Clone, Debug, PartialEq, Eq)]
pub struct Level3SnapshotData {
    pub symbol: String,
    pub checksum: i64,
    pub bids: Vec<SnapshotOrder>,
    pub asks: Vec<SnapshotOrder>,
}

pub struct Level3SnapshotDataV {
    pub symbol: Seq<char>,
    pub checksum: i64,
    pub bids: Seq<SnapshotOrderV>,
    pub asks: Seq<SnapshotOrderV>,
}

impl View for Level3SnapshotData {
    type V = Level3SnapshotDataV;

    open spec fn view(&self) -> Level3SnapshotDataV {
        Level3SnapshotDataV {
            symbol: self.symbol@,
            checksum: self.checksum,
            bids: Seq::new(self.bids@.len(), |i: int| self.bids@[i]@),
            asks: Seq::new(self.asks@.len(), |i: int| self.asks@[i]@),
        }
    }
}

#[derive(Clone, Debug, PartialEq, Eq)]
pub struct Level3Snapshot {
    pub channel: String,
    pub kind: String,
    pub data: Vec<Level3SnapshotData>,
}

pub struct Level3SnapshotV {
    pub channel: Seq<char>,
    pub kind: Seq<char>,
    pub data: Seq<Level3SnapshotDataV>,
}

impl View for Level3Snapshot {
    type V = Level3SnapshotV;

    open spec fn view(&self) -> Level3SnapshotV {
        Level3SnapshotV {
            channel: self.channel@,
            kind: self.kind@,
            data: Seq::new(self.data@.len(), |i: int| self.data@[i]@),
        }
    }
}

#[derive(Clone, Debug, PartialEq, Eq)]
pub struct UpdateOrder {
    pub event: String,
    pub order_id: String,
    pub limit_price: Dec,
    pub order_qty: Dec,
    pub timestamp: String,
}

pub struct UpdateOrderV {
    pub event: Seq<char>,
    pub order_id: Seq<char>,
    pub limit_price: Dec,
    pub order_qty: Dec,
    pub timestamp: Seq<char>,
}

impl View for UpdateOrder {
    type V = UpdateOrderV;

    open spec fn view(&self) -> UpdateOrderV {
        UpdateOrderV {
            event: self.event@,
            order_id: self.order_id@,
            limit_price: self.limit_price,
            order_qty: self.order_qty,
            timestamp: self.timestamp@,
        }
    }
}

#[derive(Clone, Debug, PartialEq, Eq)]
pub struct Level3UpdateData {
    pub symbol: String,
    pub checksum: i64,
    pub bids: Vec<UpdateOrder>,
    pub asks: Vec<UpdateOrder>,
}

pub struct Level3UpdateDataV {
    pub symbol: Seq<char>,
    pub checksum: i64,
    pub bids: Seq<UpdateOrderV>,
    pub asks: Seq<UpdateOrderV>,
}

impl View for Level3UpdateData {
    type V = Level3UpdateDataV;

    open spec fn view(&self) -> Level3UpdateDataV {
        Level3UpdateDataV {
            symbol: self.symbol@,
            checksum: self.checksum,
            bids: Seq::new(self.bids@.len(), |i: int| self.bids@[i]@),
            asks: Seq::new(self.asks@.len(), |i: int| self.asks@[i]@),
        }
    }
}

#[derive(Clone, Debug, PartialEq, Eq)]
pub struct Level3Update {
    pub channel: String,
    pub kind: String,
    pub data: Vec<Level3UpdateData>,
}

pub struct Level3UpdateV {
    pub channel: Seq<char>,
    pub kind: Seq<char>,
    pub data: Seq<Level3UpdateDataV>,
}

impl View for Level3Update {
    type V = Level3UpdateV;

    open spec fn view(&self) -> Level3UpdateV {
        Level3UpdateV {
            channel: self.channel@,
            kind: self.kind@,
            data: Seq::new(self.data@.len(), |i: int| self.data@[i]@),
        }
    }
}

#[derive(Clone, Debug, PartialEq, Eq)]
pub struct TradeData {
    pub symbol: String,
    pub side: String,
    pub price: Dec,
    pub qty: Dec,
    pub ord_type: String,
    pub trade_id: u64,
    pub timestamp: String,
}

pub struct TradeDataV {
    pub symbol: Seq<char>,
    pub side: Seq<char>,
    pub price: Dec,
    pub qty: Dec,
    pub ord_type: Seq<char>,
    pub trade_id: u64,
    pub timestamp: Seq<char>,
}

impl View for TradeData {
    type V = TradeDataV;

    open spec fn view(&self) -> TradeDataV {
        TradeDataV {
            symbol: self.symbol@,
            side: self.side@,
            price: self.price,
            qty: self.qty,
            ord_type: self.ord_type@,
            trade_id: self.trade_id,
            timestamp: self.timestamp@,
        }
    }
}

#[derive(Clone, Debug, PartialEq, Eq)]
pub struct TradeSnapshot {
    pub channel: String,
    pub kind: String,
    pub data: Vec<TradeData>,
}

pub struct TradeSnapshotV {
    pub channel: Seq<char>,
    pub kind: Seq<char>,
    pub data: Seq<TradeDataV>,
}

impl View for TradeSnapshot {
    type V = TradeSnapshotV;

    open spec fn view(&self) -> TradeSnapshotV {
        TradeSnapshotV {
            channel: self.channel@,
            kind: self.kind@,
            data: Seq::new(self.data@.len(), |i: int| self.data@[i]@),
        }
    }
}

#[derive(Clone, Debug, PartialEq, Eq)]
pub struct TradeUpdate {
    pub channel: String,
    pub kind: String,
    pub data: Vec<TradeData>,
}

pub struct TradeUpdateV {
    pub channel: Seq<char>,
    pub kind: Seq<char>,
    pub data: Seq<TradeDataV>,
}

impl View for TradeUpdate {
    type V = TradeUpdateV;

    open spec fn view(&self) -> TradeUpdateV {
        TradeUpdateV {
            channel: self.channel@,
            kind: self.kind@,
            data: Seq::new(self.data@.len(), |i: int| self.data@[i]@),
        }
    }
}

/// Every frame the classifier can produce.
#[derive(Debug, PartialEq, Eq)]
pub enum Response {
    TokenResponse(TokenResponse),
    Status(Status),
    Level3Subscribe(Level3Subscribe),
    Level3Unsubscribe(Level3Unsubscribe),
    Level3SubscribeAck(Level3SubscribeAcknowledgement),
    Level3UnsubscribeAck(Level3UnsubscribeAcknowledgement),
    Level3Snapshot(Level3Snapshot),
    Level3Update(Level3Update),
    HeartBeat(HeartBeat),
    TradeSubscribe(TradeSubscribe),
    TradeUnsubscribe(TradeUnsubscribe),
    TradeSubscribeAck(TradeSubscribeAcknowledgement),
    TradeUnsubscribeAck(TradeUnsubscribeAcknowledgement),
    TradeSnapshot(TradeSnapshot),
    TradeUpdate(TradeUpdate),
}

pub enum ResponseV {
    TokenResponse(TokenResponseV),
    Status(StatusV),
    Level3Subscribe(Level3SubscribeV),
    Level3Unsubscribe(Level3UnsubscribeV),
    Level3SubscribeAck(Level3SubscribeAcknowledgementV),
    Level3UnsubscribeAck(Level3UnsubscribeAcknowledgementV),
    Level3Snapshot(Level3SnapshotV),
    Level3Update(Level3UpdateV),
    HeartBeat(HeartBeatV),
    TradeSubscribe(TradeSubscribeV),
    TradeUnsubscribe(TradeUnsubscribeV),
    TradeSubscribeAck(TradeSubscribeAcknowledgementV),
    TradeUnsubscribeAck(TradeUnsubscribeAcknowledgementV),
    TradeSnapshot(TradeSnapshotV),
    TradeUpdate(TradeUpdateV),
}

impl View for Response {
    type V = ResponseV;

    open spec fn view(&self) -> ResponseV {
        match self {
            Response::TokenResponse(x) => ResponseV::TokenResponse(x@),
            Response::Status(x) => ResponseV::Status(x@),
            Response::Level3Subscribe(x) => ResponseV::Level3Subscribe(x@),
            Response::Level3Unsubscribe(x) => ResponseV::Level3Unsubscribe(x@),
            Response::Level3SubscribeAck(x) => ResponseV::Level3SubscribeAck(x@),
            Response::Level3UnsubscribeAck(x) => ResponseV::Level3UnsubscribeAck(x@),
            Response::Level3Snapshot(x) => ResponseV::Level3Snapshot(x@),
            Response::Level3Update(x) => ResponseV::Level3Update(x@),
            Response::HeartBeat(x) => ResponseV::HeartBeat(x@),
            Response::TradeSubscribe(x) => ResponseV::TradeSubscribe(x@),
            Response::TradeUnsubscribe(x) => ResponseV::TradeUnsubscribe(x@),
            Response::TradeSubscribeAck(x) => ResponseV::TradeSubscribeAck(x@),
            Response::TradeUnsubscribeAck(x) => ResponseV::TradeUnsubscribeAck(x@),
            Response::TradeSnapshot(x) => ResponseV::TradeSnapshot(x@),
            Response::TradeUpdate(x) => ResponseV::TradeUpdate(x@),
        }
    }
}

/// Why a frame was rejected: the text is not a JSON document this format
/// accepts, or no classification rule matches its shape.
#[derive(Clone, Copy, Debug, PartialEq, Eq, Structural)]
pub enum ParseError {
    InvalidJson,
    UnrecognizedShape,
}

// ---------------------------------------------------------------------
// Field access.

pub open spec fn spec_get_str(ms: Seq<(Seq<char>, JsonV)>, key: Seq<char>) -> Option<Seq<char>> {
    match obj_get(ms, key) {
        Some(j) => spec_as_str(j),
        None => None,
    }
}

pub open spec fn spec_get_bool(ms: Seq<(Seq<char>, JsonV)>, key: Seq<char>) -> Option<bool> {
    match obj_get(ms, key) {
        Some(j) => spec_as_bool(j),
        None => None,
    }
}

pub open spec fn spec_get_u64(ms: Seq<(Seq<char>, JsonV)>, key: Seq<char>) -> Option<u64> {
    match obj_get(ms, key) {
        Some(j) => spec_as_u64(j),
        None => None,
    }
}

pub open spec fn spec_get_i64(ms: Seq<(Seq<char>, JsonV)>, key: Seq<char>) -> Option<i64> {
    match obj_get(ms, key) {
        Some(j) => spec_as_i64(j),
        None => None,
    }
}

pub open spec fn spec_get_dec(ms: Seq<(Seq<char>, JsonV)>, key: Seq<char>) -> Option<Dec> {
    match obj_get(ms, key) {
        Some(j) => spec_as_dec(j),
        None => None,
    }
}

fn get_str(o: &Vec<(Vec<char>, Json)>, key: &str) -> (r: Option<String>)
    ensures
        match r {
            Some(s) => spec_get_str(json_view_members(o@), key@) == Some(s@),
            None => spec_get_str(json_view_members(o@), key@) is None,
        },
{
    match obj_get_exec(o, key) {
        Some(j) => as_str_exec(j),
        None => None,
    }
}

fn get_bool(o: &Vec<(Vec<char>, Json)>, key: &str) -> (r: Option<bool>)
    ensures
        r == spec_get_bool(json_view_members(o@), key@),
{
    match obj_get_exec(o, key) {
        Some(j) => as_bool_exec(j),
        None => None,
    }
}

fn get_u64(o: &Vec<(Vec<char>, Json)>, key: &str) -> (r: Option<u64>)
    ensures
        r == spec_get_u64(json_view_members(o@), key@),
{
    match obj_get_exec(o, key) {
        Some(j) => as_u64_exec(j),
        None => None,
    }
}

fn get_i64(o: &Vec<(Vec<char>, Json)>, key: &str) -> (r: Option<i64>)
    ensures
        r == spec_get_i64(json_view_members(o@), key@),
{
    match obj_get_exec(o, key) {
        Some(j) => as_i64_exec(j),
        None => None,
    }
}

fn get_dec(o: &Vec<(Vec<char>, Json)>, key: &str) -> (r: Option<Dec>)
    ensures
        r == spec_get_dec(json_view_members(o@), key@),
        r is Some ==> dec_wf(r->0),
{
    match obj_get_exec(o, key) {
        Some(j) => as_dec_exec(j),
        None => None,
    }
}

#[verifier::loop_isolation(false)]
fn str_list(a: &Vec<Json>, i: usize) -> (r: Option<Vec<String>>)
    requires
        i <= a@.len(),
    ensures
        match r {
            Some(xs) => spec_str_list(json_view_seq(a@), i as int) == Some(
                Seq::new(xs@.len(), |k: int| xs@[k]@),
            ),
            None => spec_str_list(json_view_seq(a@), i as int) is None,
        },
    decreases a@.len() - i,
{
    proof {
        lemma_json_view_seq(a@);
    }
    if i == a.len() {
        let out: Vec<String> = Vec::new();
        assert(Seq::new(out@.len(), |k: int| out@[k]@) =~= Seq::<Seq<char>>::empty());
        return Some(out);
    }
    let s = match as_str_exec(&a[i]) {
        Some(s) => s,
        None => {
            return None;
        },
    };
    match str_list(a, i + 1) {
        Some(rest) => {
            let ghost sv = s@;
            let ghost restv = Seq::new(rest@.len(), |k: int| rest@[k]@);
            let mut out = rest;
            out.insert(0, s);
            proof {
                assert(Seq::new(out@.len(), |k: int| out@[k]@) =~= seq![sv] + restv);
            }
            Some(out)
        },
        None => None,
    }
}

// ---------------------------------------------------------------------
// Payload records.

pub open spec fn spec_status_data(j: JsonV) -> Option<StatusDataV> {
    match j {
        JsonV::Obj(ms) => match (
            spec_get_str(ms, "api_version"@),
            spec_get_u64(ms, "connection_id"@),
            spec_get_str(ms, "system"@),
            spec_get_str(ms, "version"@),
        ) {
            (Some(api_version), Some(connection_id), Some(system), Some(version)) => Some(
                StatusDataV { api_version, connection_id, system, version },
            ),
            _ => None,
        },
        _ => None,
    }
}

fn extract_status_data(j: &Json) -> (r: Option<StatusData>)
    ensures
        match r {
            Some(x) => spec_status_data(json_view(*j)) == Some(x@),
            None => spec_status_data(json_view(*j)) is None,
        },
{
    match j {
        Json::Obj(o) => {
            let api_version = match get_str(o, "api_version") {
                Some(x) => x,
                None => {
                    return None;
                },
            };
            let connection_id = match get_u64(o, "connection_id") {
                Some(x) => x,
                None => {
                    return None;
                },
            };
            let system = match get_str(o, "system") {
                Some(x) => x,
                None => {
                    return None;
                },
            };
            let version = match get_str(o, "version") {
                Some(x) => x,
                None => {
                    return None;
                },
            };
            Some(StatusData { api_version, connection_id, system, version })
        },
        _ => None,
    }
}

pub open spec fn spec_status_list(a: Seq<JsonV>, i: int) -> Option<Seq<StatusDataV>>
    decreases a.len() - i,
    when 0 <= i <= a.len()
{
    if i == a.len() {
        Some(Seq::empty())
    } else {
        match spec_status_data(a[i]) {
            Some(x) => match spec_status_list(a, i + 1) {
                Some(rest) => Some(seq![x] + rest),
                None => None,
            },
            None => None,
        }
    }
}

#[verifier::loop_isolation(false)]
fn status_list(a: &Vec<Json>, i: usize) -> (r: Option<Vec<StatusData>>)
    requires
        i <= a@.len(),
    ensures
        match r {
            Some(xs) => spec_status_list(json_view_seq(a@), i as int) == Some(
                Seq::new(xs@.len(), |k: int| xs@[k]@),
            ),
            None => spec_status_list(json_view_seq(a@), i as int) is None,
        },
    decreases a@.len() - i,
{
    proof {
        lemma_json_view_seq(a@);
    }
    if i == a.len() {
        let out: Vec<StatusData> = Vec::new();
        assert(Seq::new(out@.len(), |k: int| out@[k]@) =~= Seq::<StatusDataV>::empty());
        return Some(out);
    }
    let x = match extract_status_data(&a[i]) {
        Some(x) => x,
        None => {
            return None;
        },
    };
    match status_list(a, i + 1) {
        Some(rest) => {
            let ghost xv = x@;
            let ghost restv = Seq::new(rest@.len(), |k: int| rest@[k]@);
            let mut out = rest;
            out.insert(0, x);
            proof {
                assert(Seq::new(out@.len(), |k: int| out@[k]@) =~= seq![xv] + restv);
            }
            Some(out)
        },
        None => None,
    }
}

pub open spec fn spec_snapshot_order(j: JsonV) -> Option<SnapshotOrderV> {
    match j {
        JsonV::Obj(ms) => match (
            spec_get_str(ms, "order_id"@),
            spec_get_dec(ms, "limit_price"@),
            spec_get_dec(ms, "order_qty"@),
            spec_get_str(ms, "timestamp"@),
        ) {
            (Some(order_id), Some(limit_price), Some(order_qty), Some(timestamp)) => Some(
                SnapshotOrderV { order_id, limit_price, order_qty, timestamp },
            ),
            _ => None,
        },
        _ => None,
    }
}

fn extract_snapshot_order(j: &Json) -> (r: Option<SnapshotOrder>)
    ensures
        match r {
            Some(x) => spec_snapshot_order(json_view(*j)) == Some(x@) && dec_wf(x.limit_price)
                && dec_wf(x.order_qty),
            None => spec_snapshot_order(json_view(*j)) is None,
        },
{
    match j {
        Json::Obj(o) => {
            let order_id = match get_str(o, "order_id") {
                Some(x) => x,
                None => {
                    return None;
                },
            };
            let limit_price = match get_dec(o, "limit_price") {
                Some(x) => x,
                None => {
                    return None;
                },
            };
            let order_qty = match get_dec(o, "order_qty") {
                Some(x) => x,
                None => {
                    return None;
                },
            };
            let timestamp = match get_str(o, "timestamp") {
                Some(x) => x,
                None => {
                    return None;
                },
            };
            Some(SnapshotOrder { order_id, limit_price, order_qty, timestamp })
        },
        _ => None,
    }
}

pub open spec fn spec_snapshot_order_list(a: Seq<JsonV>, i: int) -> Option<Seq<SnapshotOrderV>>
    decreases a.len() - i,
    when 0 <= i <= a.len()
{
    if i == a.len() {
        Some(Seq::empty())
    } else {
        match spec_snapshot_order(a[i]) {
            Some(x) => match spec_snapshot_order_list(a, i + 1) {
                Some(rest) => Some(seq![x] + rest),
                None => None,
            },
            None => None,
        }
    }
}

/// Every decimal in an extracted order list is well-formed.
pub open spec fn snapshot_orders_wf(xs: Seq<SnapshotOrder>) -> bool {
    forall|k: int|
        0 <= k < xs.len() ==> dec_wf(#[trigger] xs[k].limit_price) && dec_wf(xs[k].order_qty)
}

#[verifier::loop_isolation(false)]
fn snapshot_order_list(a: &Vec<Json>, i: usize) -> (r: Option<Vec<SnapshotOrder>>)
    requires
        i <= a@.len(),
    ensures
        match r {
            Some(xs) => spec_snapshot_order_list(json_view_seq(a@), i as int) == Some(
                Seq::new(xs@.len(), |k: int| xs@[k]@),
            ) && snapshot_orders_wf(xs@),
            None => spec_snapshot_order_list(json_view_seq(a@), i as int) is None,
        },
    decreases a@.len() - i,
{
    proof {
        lemma_json_view_seq(a@);
    }
    if i == a.len() {
        let out: Vec<SnapshotOrder> = Vec::new();
        assert(Seq::new(out@.len(), |k: int| out@[k]@) =~= Seq::<SnapshotOrderV>::empty());
        return Some(out);
    }
    let x = match extract_snapshot_order(&a[i]) {
        Some(x) => x,
        None => {
            return None;
        },
    };
    match snapshot_order_list(a, i + 1) {
        Some(rest) => {
            let ghost xv = x@;
            let ghost restv = Seq::new(rest@.len(), |k: int| rest@[k]@);
            let mut out = rest;
            out.insert(0, x);
            proof {
                assert(Seq::new(out@.len(), |k: int| out@[k]@) =~= seq![xv] + restv);
            }
            Some(out)
        },
        None => None,
    }
}

pub open spec fn spec_update_order(j: JsonV) -> Option<UpdateOrderV> {
    match j {
        JsonV::Obj(ms) => match (
            spec_get_str(ms, "event"@),
            spec_get_str(ms, "order_id"@),
            spec_get_dec(ms, "limit_price"@),
            spec_get_dec(ms, "order_qty"@),
            spec_get_str(ms, "timestamp"@),
        ) {
            (Some(event), Some(order_id), Some(limit_price), Some(order_qty), Some(timestamp)) =>
                Some(UpdateOrderV { event, order_id, limit_price, order_qty, timestamp }),
            _ => None,
        },
        _ => None,
    }
}

fn extract_update_order(j: &Json) -> (r: Option<UpdateOrder>)
    ensures
        match r {
            Some(x) => spec_update_order(json_view(*j)) == Some(x@) && dec_wf(x.limit_price)
                && dec_wf(x.order_qty),
            None => spec_update_order(json_view(*j)) is None,
        },
{
    match j {
        Json::Obj(o) => {
            let event = match get_str(o, "event") {
                Some(x) => x,
                None => {
                    return None;
                },
            };
            let order_id = match get_str(o, "order_id") {
                Some(x) => x,
                None => {
                    return None;
                },
            };
            let limit_price = match get_dec(o, "limit_price") {
                Some(x) => x,
                None => {
                    return None;
                },
            };
            let order_qty = match get_dec(o, "order_qty") {
                Some(x) => x,
                None => {
                    return None;
                },
            };
            let timestamp = match get_str(o, "timestamp") {
                Some(x) => x,
                None => {
                    return None;
                },
            };
            Some(UpdateOrder { event, order_id, limit_price, order_qty, timestamp })
        },
        _ => None,
    }
}

pub open spec fn spec_update_order_list(a: Seq<JsonV>, i: int) -> Option<Seq<UpdateOrderV>>
    decreases a.len() - i,
    when 0 <= i <= a.len()
{
    if i == a.len() {
        Some(Seq::empty())
    } else {
        match spec_update_order(a[i]) {
            Some(x) => match spec_update_order_list(a, i + 1) {
                Some(rest) => Some(seq![x] + rest),
                None => None,
            },
            None => None,
        }
    }
}

/// Every decimal in an extracted update list is well-formed.
pub open spec fn update_orders_wf(xs: Seq<UpdateOrder>) -> bool {
    forall|k: int|
        0 <= k < xs.len() ==> dec_wf(#[trigger] xs[k].limit_price) && dec_wf(xs[k].order_qty)
}

#[verifier::loop_isolation(false)]
fn update_order_list(a: &Vec<Json>, i: usize) -> (r: Option<Vec<UpdateOrder>>)
    requires
        i <= a@.len(),
    ensures
        match r {
            Some(xs) => spec_update_order_list(json_view_seq(a@), i as int) == Some(
                Seq::new(xs@.len(), |k: int| xs@[k]@),
            ) && update_orders_wf(xs@),
            None => spec_update_order_list(json_view_seq(a@), i as int) is None,
        },
    decreases a@.len() - i,
{
    proof {
        lemma_json_view_seq(a@);
    }
    if i == a.len() {
        let out: Vec<UpdateOrder> = Vec::new();
        assert(Seq::new(out@.len(), |k: int| out@[k]@) =~= Seq::<UpdateOrderV>::empty());
        return Some(out);
    }
    let x = match extract_update_order(&a[i]) {
        Some(x) => x,
        None => {
            return None;
        },
    };
    match update_order_list(a, i + 1) {
        Some(rest) => {
            let ghost xv = x@;
            let ghost restv = Seq::new(rest@.len(), |k: int| rest@[k]@);
            let mut out = rest;
            out.insert(0, x);
            proof {
                assert(Seq::new(out@.len(), |k: int| out@[k]@) =~= seq![xv] + restv);
            }
            Some(out)
        },
        None => None,
    }
}

pub open spec fn spec_trade_data(j: JsonV) -> Option<TradeDataV> {
    match j {
        JsonV::Obj(ms) => match (
            spec_get_str(ms, "symbol"@),
            spec_get_str(ms, "side"@),
            spec_get_dec(ms, "price"@),
            spec_get_dec(ms, "qty"@),
            spec_get_str(ms, "ord_type"@),
            spec_get_u64(ms, "trade_id"@),
            spec_get_str(ms, "timestamp"@),
        ) {
            (
                Some(symbol),
                Some(side),
                Some(price),
                Some(qty),
                Some(ord_type),
                Some(trade_id),
                Some(timestamp),
            ) => Some(TradeDataV { symbol, side, price, qty, ord_type, trade_id, timestamp }),
            _ => None,
        },
        _ => None,
    }
}

fn extract_trade_data(j: &Json) -> (r: Option<TradeData>)
    ensures
        match r {
            Some(x) => spec_trade_data(json_view(*j)) == Some(x@) && dec_wf(x.price) && dec_wf(
                x.qty,
            ),
            None => spec_trade_data(json_view(*j)) is None,
        },
{
    match j {
        Json::Obj(o) => {
            let symbol = match get_str(o, "symbol") {
                Some(x) => x,
                None => {
                    return None;
                },
            };
            let side = match get_str(o, "side") {
                Some(x) => x,
                None => {
                    return None;
                },
            };
            let price = match get_dec(o, "price") {
                Some(x) => x,
                None => {
                    return None;
                },
            };
            let qty = match get_dec(o, "qty") {
                Some(x) => x,
                None => {
                    return None;
                },
            };
            let ord_type = match get_str(o, "ord_type") {
                Some(x) => x,
                None => {
                    return None;
                },
            };
            let trade_id = match get_u64(o, "trade_id") {
                Some(x) => x,
                None => {
                    return None;
                },
            };
            let timestamp = match get_str(o, "timestamp") {
                Some(x) => x,
                None => {
                    return None;
                },
            };
            Some(TradeData { symbol, side, price, qty, ord_type, trade_id, timestamp })
        },
        _ => None,
    }
}

pub open spec fn spec_trade_list(a: Seq<JsonV>, i: int) -> Option<Seq<TradeDataV>>
    decreases a.len() - i,
    when 0 <= i <= a.len()
{
    if i == a.len() {
        Some(Seq::empty())
    } else {
        match spec_trade_data(a[i]) {
            Some(x) => match spec_trade_list(a, i + 1) {
                Some(rest) => Some(seq![x] + rest),
                None => None,
            },
            None => None,
        }
    }
}

/// Every decimal in an extracted trade list is well-formed.
pub open spec fn trades_wf(xs: Seq<TradeData>) -> bool {
    forall|k: int| 0 <= k < xs.len() ==> dec_wf(#[trigger] xs[k].price) && dec_wf(xs[k].qty)
}

#[verifier::loop_isolation(false)]
fn trade_list(a: &Vec<Json>, i: usize) -> (r: Option<Vec<TradeData>>)
    requires
        i <= a@.len(),
    ensures
        match r {
            Some(xs) => spec_trade_list(json_view_seq(a@), i as int) == Some(
                Seq::new(xs@.len(), |k: int| xs@[k]@),
            ) && trades_wf(xs@),
            None => spec_trade_list(json_view_seq(a@), i as int) is None,
        },
    decreases a@.len() - i,
{
    proof {
        lemma_json_view_seq(a@);
    }
    if i == a.len() {
        let out: Vec<TradeData> = Vec::new();
        assert(Seq::new(out@.len(), |k: int| out@[k]@) =~= Seq::<TradeDataV>::empty());
        return Some(out);
    }
    let x = match extract_trade_data(&a[i]) {
        Some(x) => x,
        None => {
            return None;
        },
    };
    match trade_list(a, i + 1) {
        Some(rest) => {
            let ghost xv = x@;
            let ghost restv = Seq::new(rest@.len(), |k: int| rest@[k]@);
            let mut out = rest;
            out.insert(0, x);
            proof {
                assert(Seq::new(out@.len(), |k: int| out@[k]@) =~= seq![xv] + restv);
            }
            Some(out)
        },
        None => None,
    }
}

pub open spec fn spec_snapshot_data(j: JsonV) -> Option<Level3SnapshotDataV> {
    match j {
        JsonV::Obj(ms) => {
            match (spec_get_str(ms, "symbol"@), spec_get_i64(ms, "checksum"@)) {
                (Some(symbol), Some(checksum)) => match (
                    obj_get(ms, "bids"@),
                    obj_get(ms, "asks"@),
                ) {
                    (Some(JsonV::Arr(ba)), Some(JsonV::Arr(aa))) => match (
                        spec_snapshot_order_list(ba, 0),
                        spec_snapshot_order_list(aa, 0),
                    ) {
                        (Some(bids), Some(asks)) => Some(
                            Level3SnapshotDataV { symbol, checksum, bids, asks },
                        ),
                        _ => None,
                    },
                    _ => None,
                },
                _ => None,
            }
        },
        _ => None,
    }
}

pub open spec fn snapshot_data_wf(x: Level3SnapshotData) -> bool {
    snapshot_orders_wf(x.bids@) && snapshot_orders_wf(x.asks@)
}

fn extract_snapshot_data(j: &Json) -> (r: Option<Level3SnapshotData>)
    ensures
        match r {
            Some(x) => spec_snapshot_data(json_view(*j)) == Some(x@) && snapshot_data_wf(x),
            None => spec_snapshot_data(json_view(*j)) is None,
        },
{
    match j {
        Json::Obj(o) => {
            let symbol = match get_str(o, "symbol") {
                Some(x) => x,
                None => {
                    return None;
                },
            };
            let checksum = match get_i64(o, "checksum") {
                Some(x) => x,
                None => {
                    return None;
                },
            };
            let bids = match obj_get_exec(o, "bids") {
                Some(bj) => match bj {
                    Json::Arr(ba) => match snapshot_order_list(ba, 0) {
                        Some(x) => x,
                        None => {
                            return None;
                        },
                    },
                    _ => {
                        return None;
                    },
                },
                None => {
                    return None;
                },
            };
            let asks = match obj_get_exec(o, "asks") {
                Some(aj) => match aj {
                    Json::Arr(aa) => match snapshot_order_list(aa, 0) {
                        Some(x) => x,
                        None => {
                            return None;
                        },
                    },
                    _ => {
                        return None;
                    },
                },
                None => {
                    return None;
                },
            };
            Some(Level3SnapshotData { symbol, checksum, bids, asks })
        },
        _ => None,
    }
}

pub open spec fn spec_snapshot_data_list(a: Seq<JsonV>, i: int) -> Option<Seq<Level3SnapshotDataV>>
    decreases a.len() - i,
    when 0 <= i <= a.len()
{
    if i == a.len() {
        Some(Seq::empty())
    } else {
        match spec_snapshot_data(a[i]) {
            Some(x) => match spec_snapshot_data_list(a, i + 1) {
                Some(rest) => Some(seq![x] + rest),
                None => None,
            },
            None => None,
        }
    }
}

pub open spec fn snapshot_data_list_wf(xs: Seq<Level3SnapshotData>) -> bool {
    forall|k: int| 0 <= k < xs.len() ==> snapshot_data_wf(#[trigger] xs[k])
}

#[verifier::loop_isolation(false)]
fn snapshot_data_list(a: &Vec<Json>, i: usize) -> (r: Option<Vec<Level3SnapshotData>>)
    requires
        i <= a@.len(),
    ensures
        match r {
            Some(xs) => spec_snapshot_data_list(json_view_seq(a@), i as int) == Some(
                Seq::new(xs@.len(), |k: int| xs@[k]@),
            ) && snapshot_data_list_wf(xs@),
            None => spec_snapshot_data_list(json_view_seq(a@), i as int) is None,
        },
    decreases a@.len() - i,
{
    proof {
        lemma_json_view_seq(a@);
    }
    if i == a.len() {
        let out: Vec<Level3SnapshotData> = Vec::new();
        assert(Seq::new(out@.len(), |k: int| out@[k]@) =~= Seq::<Level3SnapshotDataV>::empty());
        return Some(out);
    }
    let x = match extract_snapshot_data(&a[i]) {
        Some(x) => x,
        None => {
            return None;
        },
    };
    match snapshot_data_list(a, i + 1) {
        Some(rest) => {
            let ghost xv = x@;
            let ghost restv = Seq::new(rest@.len(), |k: int| rest@[k]@);
            let mut out = rest;
            out.insert(0, x);
            proof {
                assert(Seq::new(out@.len(), |k: int| out@[k]@) =~= seq![xv] + restv);
            }
            Some(out)
        },
        None => None,
    }
}

pub open spec fn spec_update_data(j: JsonV) -> Option<Level3UpdateDataV> {
    match j {
        JsonV::Obj(ms) => {
            match (spec_get_str(ms, "symbol"@), spec_get_i64(ms, "checksum"@)) {
                (Some(symbol), Some(checksum)) => match (
                    obj_get(ms, "bids"@),
                    obj_get(ms, "asks"@),
                ) {
                    (Some(JsonV::Arr(ba)), Some(JsonV::Arr(aa))) => match (
                        spec_update_order_list(ba, 0),
                        spec_update_order_list(aa, 0),
                    ) {
                        (Some(bids), Some(asks)) => Some(
                            Level3UpdateDataV { symbol, checksum, bids, asks },
                        ),
                        _ => None,
                    },
                    _ => None,
                },
                _ => None,
            }
        },
        _ => None,
    }
}

pub open spec fn update_data_wf(x: Level3UpdateData) -> bool {
    update_orders_wf(x.bids@) && update_orders_wf(x.asks@)
}

fn extract_update_data(j: &Json) -> (r: Option<Level3UpdateData>)
    ensures
        match r {
            Some(x) => spec_update_data(json_view(*j)) == Some(x@) && update_data_wf(x),
            None => spec_update_data(json_view(*j)) is None,
        },
{
    match j {
        Json::Obj(o) => {
            let symbol = match get_str(o, "symbol") {
                Some(x) => x,
                None => {
                    return None;
                },
            };
            let checksum = match get_i64(o, "checksum") {
                Some(x) => x,
                None => {
                    return None;
                },
            };
            let bids = match obj_get_exec(o, "bids") {
                Some(bj) => match bj {
                    Json::Arr(ba) => match update_order_list(ba, 0) {
                        Some(x) => x,
                        None => {
                            return None;
                        },
                    },
                    _ => {
                        return None;
                    },
                },
                None => {
                    return None;
                },
            };
            let asks = match obj_get_exec(o, "asks") {
                Some(aj) => match aj {
                    Json::Arr(aa) => match update_order_list(aa, 0) {
                        Some(x) => x,
                        None => {
                            return None;
                        },
                    },
                    _ => {
                        return None;
                    },
                },
                None => {
                    return None;
                },
            };
            Some(Level3UpdateData { symbol, checksum, bids, asks })
        },
        _ => None,
    }
}

pub open spec fn spec_update_data_list(a: Seq<JsonV>, i: int) -> Option<Seq<Level3UpdateDataV>>
    decreases a.len() - i,
    when 0 <= i <= a.len()
{
    if i == a.len() {
        Some(Seq::empty())
    } else {
        match spec_update_data(a[i]) {
            Some(x) => match spec_update_data_list(a, i + 1) {
                Some(rest) => Some(seq![x] + rest),
                None => None,
            },
            None => None,
        }
    }
}

pub open spec fn update_data_list_wf(xs: Seq<Level3UpdateData>) -> bool {
    forall|k: int| 0 <= k < xs.len() ==> update_data_wf(#[trigger] xs[k])
}

#[verifier::loop_isolation(false)]
fn update_data_list(a: &Vec<Json>, i: usize) -> (r: Option<Vec<Level3UpdateData>>)
    requires
        i <= a@.len(),
    ensures
        match r {
            Some(xs) => spec_update_data_list(json_view_seq(a@), i as int) == Some(
                Seq::new(xs@.len(), |k: int| xs@[k]@),
            ) && update_data_list_wf(xs@),
            None => spec_update_data_list(json_view_seq(a@), i as int) is None,
        },
    decreases a@.len() - i,
{
    proof {
        lemma_json_view_seq(a@);
    }
    if i == a.len() {
        let out: Vec<Level3UpdateData> = Vec::new();
        assert(Seq::new(out@.len(), |k: int| out@[k]@) =~= Seq::<Level3UpdateDataV>::empty());
        return Some(out);
    }
    let x = match extract_update_data(&a[i]) {
        Some(x) => x,
        None => {
            return None;
        },
    };
    match update_data_list(a, i + 1) {
        Some(rest) => {
            let ghost xv = x@;
            let ghost restv = Seq::new(rest@.len(), |k: int| rest@[k]@);
            let mut out = rest;
            out.insert(0, x);
            proof {
                assert(Seq::new(out@.len(), |k: int| out@[k]@) =~= seq![xv] + restv);
            }
            Some(out)
        },
        None => None,
    }
}

// ---------------------------------------------------------------------
// The discriminators of the classification table.

/// The root carries `result.token`.
pub open spec fn spec_has_result_token(ms: Seq<(Seq<char>, JsonV)>) -> bool {
    match obj_get(ms, "result"@) {
        Some(JsonV::Obj(rms)) => obj_get(rms, "token"@) is Some,
        _ => false,
    }
}

pub open spec fn spec_channel_is(ms: Seq<(Seq<char>, JsonV)>, name: Seq<char>) -> bool {
    obj_get(ms, "channel"@) == Some(JsonV::Str(name))
}

pub open spec fn spec_method_is(ms: Seq<(Seq<char>, JsonV)>, name: Seq<char>) -> bool {
    obj_get(ms, "method"@) == Some(JsonV::Str(name))
}

pub open spec fn spec_type_is(ms: Seq<(Seq<char>, JsonV)>, name: Seq<char>) -> bool {
    obj_get(ms, "type"@) == Some(JsonV::Str(name))
}

fn has_result_token(o: &Vec<(Vec<char>, Json)>) -> (r: bool)
    ensures
        r == spec_has_result_token(json_view_members(o@)),
{
    match obj_get_exec(o, "result") {
        Some(j) => match j {
            Json::Obj(rms) => obj_get_exec(rms, "token").is_some(),
            _ => false,
        },
        None => false,
    }
}

fn str_field_is(o: &Vec<(Vec<char>, Json)>, key: &str, name: &str) -> (r: bool)
    ensures
        r == (obj_get(json_view_members(o@), key@) == Some(JsonV::Str(name@))),
{
    match obj_get_exec(o, key) {
        Some(j) => match j {
            Json::Str(s) => chars_eq_str(s, name),
            _ => false,
        },
        None => false,
    }
}

fn has_field(o: &Vec<(Vec<char>, Json)>, key: &str) -> (r: bool)
    ensures
        r == (obj_get(json_view_members(o@), key@) is Some),
{
    obj_get_exec(o, key).is_some()
}

// ---------------------------------------------------------------------
// The variants' payloads.

pub open spec fn spec_token_response(ms: Seq<(Seq<char>, JsonV)>) -> Option<TokenResponseV> {
    match obj_get(ms, "error"@) {
        Some(JsonV::Arr(ea)) => match spec_str_list(ea, 0) {
            Some(error) => match obj_get(ms, "result"@) {
                Some(JsonV::Obj(rms)) => match (
                    spec_get_str(rms, "token"@),
                    spec_get_u64(rms, "expires"@),
                ) {
                    (Some(token), Some(expires)) => Some(
                        TokenResponseV { error, result: TokenResultDataV { token, expires } },
                    ),
                    _ => None,
                },
                _ => None,
            },
            None => None,
        },
        _ => None,
    }
}

fn extract_token_response(o: &Vec<(Vec<char>, Json)>) -> (r: Option<TokenResponse>)
    ensures
        match r {
            Some(x) => spec_token_response(json_view_members(o@)) == Some(x@),
            None => spec_token_response(json_view_members(o@)) is None,
        },
{
    let error = match obj_get_exec(o, "error") {
        Some(ej) => match ej {
            Json::Arr(ea) => match str_list(ea, 0) {
                Some(x) => x,
                None => {
                    return None;
                },
            },
            _ => {
                return None;
            },
        },
        None => {
            return None;
        },
    };
    match obj_get_exec(o, "result") {
        Some(rj) => match rj {
            Json::Obj(rms) => {
                let token = match get_str(rms, "token") {
                    Some(x) => x,
                    None => {
                        return None;
                    },
                };
                let expires = match get_u64(rms, "expires") {
                    Some(x) => x,
                    None => {
                        return None;
                    },
                };
                Some(TokenResponse { error, result: TokenResultData { token, expires } })
            },
            _ => None,
        },
        None => None,
    }
}

pub open spec fn spec_status(ms: Seq<(Seq<char>, JsonV)>) -> Option<StatusV> {
    match (spec_get_str(ms, "channel"@), spec_get_str(ms, "type"@)) {
        (Some(channel), Some(kind)) => match obj_get(ms, "data"@) {
            Some(JsonV::Arr(da)) => match spec_status_list(da, 0) {
                Some(data) => Some(StatusV { channel, data, kind }),
                None => None,
            },
            _ => None,
        },
        _ => None,
    }
}

fn extract_status(o: &Vec<(Vec<char>, Json)>) -> (r: Option<Status>)
    ensures
        match r {
            Some(x) => spec_status(json_view_members(o@)) == Some(x@),
            None => spec_status(json_view_members(o@)) is None,
        },
{
    let channel = match get_str(o, "channel") {
        Some(x) => x,
        None => {
            return None;
        },
    };
    let kind = match get_str(o, "type") {
        Some(x) => x,
        None => {
            return None;
        },
    };
    match obj_get_exec(o, "data") {
        Some(dj) => match dj {
            Json::Arr(da) => match status_list(da, 0) {
                Some(data) => Some(Status { channel, data, kind }),
                None => None,
            },
            _ => None,
        },
        None => None,
    }
}

pub open spec fn spec_heartbeat(ms: Seq<(Seq<char>, JsonV)>) -> Option<HeartBeatV> {
    match spec_get_str(ms, "channel"@) {
        Some(channel) => Some(HeartBeatV { channel }),
        None => None,
    }
}

fn extract_heartbeat(o: &Vec<(Vec<char>, Json)>) -> (r: Option<HeartBeat>)
    ensures
        match r {
            Some(x) => spec_heartbeat(json_view_members(o@)) == Some(x@),
            None => spec_heartbeat(json_view_members(o@)) is None,
        },
{
    match get_str(o, "channel") {
        Some(channel) => Some(HeartBeat { channel }),
        None => None,
    }
}

pub open spec fn spec_l3_subscribe(ms: Seq<(Seq<char>, JsonV)>) -> Option<Level3SubscribeV> {
    match spec_get_str(ms, "method"@) {
        Some(method) => match obj_get(ms, "params"@) {
            Some(JsonV::Obj(pms)) => match (
                spec_get_str(pms, "channel"@),
                spec_get_u64(pms, "depth"@),
                spec_get_bool(pms, "snapshot"@),
                spec_get_str(pms, "token"@),
            ) {
                (Some(channel), Some(depth), Some(snapshot), Some(token)) => match obj_get(
                    pms,
                    "symbol"@,
                ) {
                    Some(JsonV::Arr(sa)) => match spec_str_list(sa, 0) {
                        Some(symbol) => Some(
                            Level3SubscribeV {
                                method,
                                params: Level3SubscribeParamsV {
                                    channel,
                                    symbol,
                                    depth,
                                    snapshot,
                                    token,
                                },
                            },
                        ),
                        None => None,
                    },
                    _ => None,
                },
                _ => None,
            },
            _ => None,
        },
        None => None,
    }
}

fn extract_l3_subscribe(o: &Vec<(Vec<char>, Json)>) -> (r: Option<Level3Subscribe>)
    ensures
        match r {
            Some(x) => spec_l3_subscribe(json_view_members(o@)) == Some(x@),
            None => spec_l3_subscribe(json_view_members(o@)) is None,
        },
{
    let method = match get_str(o, "method") {
        Some(x) => x,
        None => {
            return None;
        },
    };
    match obj_get_exec(o, "params") {
        Some(pj) => match pj {
            Json::Obj(pms) => {
                let channel = match get_str(pms, "channel") {
                    Some(x) => x,
                    None => {
                        return None;
                    },
                };
                let depth = match get_u64(pms, "depth") {
                    Some(x) => x,
                    None => {
                        return None;
                    },
                };
                let snapshot = match get_bool(pms, "snapshot") {
                    Some(x) => x,
                    None => {
                        return None;
                    },
                };
                let token = match get_str(pms, "token") {
                    Some(x) => x,
                    None => {
                        return None;
                    },
                };
                match obj_get_exec(pms, "symbol") {
                    Some(sj) => match sj {
                        Json::Arr(sa) => match str_list(sa, 0) {
                            Some(symbol) => Some(
                                Level3Subscribe {
                                    method,
                                    params: Level3SubscribeParams {
                                        channel,
                                        symbol,
                                        depth,
                                        snapshot,
                                        token,
                                    },
                                },
                            ),
                            None => None,
                        },
                        _ => None,
                    },
                    None => None,
                }
            },
            _ => None,
        },
        None => None,
    }
}

pub open spec fn spec_l3_unsubscribe(ms: Seq<(Seq<char>, JsonV)>) -> Option<Level3UnsubscribeV> {
    match spec_get_str(ms, "method"@) {
        Some(method) => match obj_get(ms, "params"@) {
            Some(JsonV::Obj(pms)) => match (
                spec_get_str(pms, "channel"@),
                spec_get_str(pms, "token"@),
            ) {
                (Some(channel), Some(token)) => match obj_get(pms, "symbol"@) {
                    Some(JsonV::Arr(sa)) => match spec_str_list(sa, 0) {
                        Some(symbol) => Some(
                            Level3UnsubscribeV {
                                method,
                                params: Level3UnsubscribeParamsV { channel, symbol, token },
                            },
                        ),
                        None => None,
                    },
                    _ => None,
                },
                _ => None,
            },
            _ => None,
        },
        None => None,
    }
}

fn extract_l3_unsubscribe(o: &Vec<(Vec<char>, Json)>) -> (r: Option<Level3Unsubscribe>)
    ensures
        match r {
            Some(x) => spec_l3_unsubscribe(json_view_members(o@)) == Some(x@),
            None => spec_l3_unsubscribe(json_view_members(o@)) is None,
        },
{
    let method = match get_str(o, "method") {
        Some(x) => x,
        None => {
            return None;
        },
    };
    match obj_get_exec(o, "params") {
        Some(pj) => match pj {
            Json::Obj(pms) => {
                let channel = match get_str(pms, "channel") {
                    Some(x) => x,
                    None => {
                        return None;
                    },
                };
                let token = match get_str(pms, "token") {
                    Some(x) => x,
                    None => {
                        return None;
                    },
                };
                match obj_get_exec(pms, "symbol") {
                    Some(sj) => match sj {
                        Json::Arr(sa) => match str_list(sa, 0) {
                            Some(symbol) => Some(
                                Level3Unsubscribe {
                                    method,
                                    params: Level3UnsubscribeParams { channel, symbol, token },
                                },
                            ),
                            None => None,
                        },
                        _ => None,
                    },
                    None => None,
                }
            },
            _ => None,
        },
        None => None,
    }
}

pub open spec fn spec_l3_sub_ack(ms: Seq<(Seq<char>, JsonV)>) -> Option<
    Level3SubscribeAcknowledgementV,
> {
    match (
        spec_get_str(ms, "method"@),
        spec_get_bool(ms, "success"@),
        spec_get_str(ms, "time_in"@),
        spec_get_str(ms, "time_out"@),
    ) {
        (Some(method), Some(success), Some(time_in), Some(time_out)) => match obj_get(
            ms,
            "result"@,
        ) {
            Some(JsonV::Obj(rms)) => match (
                spec_get_str(rms, "channel"@),
                spec_get_bool(rms, "snapshot"@),
                spec_get_str(rms, "symbol"@),
            ) {
                (Some(channel), Some(snapshot), Some(symbol)) => Some(
                    Level3SubscribeAcknowledgementV {
                        method,
                        result: Level3SubscribeResonseDataV { channel, snapshot, symbol },
                        success,
                        time_in,
                        time_out,
                    },
                ),
                _ => None,
            },
            _ => None,
        },
        _ => None,
    }
}

fn extract_l3_sub_ack(o: &Vec<(Vec<char>, Json)>) -> (r: Option<Level3SubscribeAcknowledgement>)
    ensures
        match r {
            Some(x) => spec_l3_sub_ack(json_view_members(o@)) == Some(x@),
            None => spec_l3_sub_ack(json_view_members(o@)) is None,
        },
{
    let method = match get_str(o, "method") {
        Some(x) => x,
        None => {
            return None;
        },
    };
    let success = match get_bool(o, "success") {
        Some(x) => x,
        None => {
            return None;
        },
    };
    let time_in = match get_str(o, "time_in") {
        Some(x) => x,
        None => {
            return None;
        },
    };
    let time_out = match get_str(o, "time_out") {
        Some(x) => x,
        None => {
            return None;
        },
    };
    match obj_get_exec(o, "result") {
        Some(rj) => match rj {
            Json::Obj(rms) => {
                let channel = match get_str(rms, "channel") {
                    Some(x) => x,
                    None => {
                        return None;
                    },
                };
                let snapshot = match get_bool(rms, "snapshot") {
                    Some(x) => x,
                    None => {
                        return None;
                    },
                };
                let symbol = match get_str(rms, "symbol") {
                    Some(x) => x,
                    None => {
                        return None;
                    },
                };
                Some(
                    Level3SubscribeAcknowledgement {
                        method,
                        result: Level3SubscribeResonseData { channel, snapshot, symbol },
                        success,
                        time_in,
                        time_out,
                    },
                )
            },
            _ => None,
        },
        None => None,
    }
}

pub open spec fn spec_l3_unsub_ack(ms: Seq<(Seq<char>, JsonV)>) -> Option<
    Level3UnsubscribeAcknowledgementV,
> {
    match (
        spec_get_str(ms, "method"@),
        spec_get_bool(ms, "success"@),
        spec_get_str(ms, "time_in"@),
        spec_get_str(ms, "time_out"@),
    ) {
        (Some(method), Some(success), Some(time_in), Some(time_out)) => match obj_get(
            ms,
            "result"@,
        ) {
            Some(JsonV::Obj(rms)) => match (
                spec_get_str(rms, "channel"@),
                spec_get_str(rms, "symbol"@),
            ) {
                (Some(channel), Some(symbol)) => Some(
                    Level3UnsubscribeAcknowledgementV {
                        method,
                        result: UnsubscribeResonseDataV { channel, symbol },
                        success,
                        time_in,
                        time_out,
                    },
                ),
                _ => None,
            },
            _ => None,
        },
        _ => None,
    }
}

fn extract_l3_unsub_ack(o: &Vec<(Vec<char>, Json)>) -> (r: Option<
    Level3UnsubscribeAcknowledgement,
>)
    ensures
        match r {
            Some(x) => spec_l3_unsub_ack(json_view_members(o@)) == Some(x@),
            None => spec_l3_unsub_ack(json_view_members(o@)) is None,
        },
{
    let method = match get_str(o, "method") {
        Some(x) => x,
        None => {
            return None;
        },
    };
    let success = match get_bool(o, "success") {
        Some(x) => x,
        None => {
            return None;
        },
    };
    let time_in = match get_str(o, "time_in") {
        Some(x) => x,
        None => {
            return None;
        },
    };
    let time_out = match get_str(o, "time_out") {
        Some(x) => x,
        None => {
            return None;
        },
    };
    match obj_get_exec(o, "result") {
        Some(rj) => match rj {
            Json::Obj(rms) => {
                let channel = match get_str(rms, "channel") {
                    Some(x) => x,
                    None => {
                        return None;
                    },
                };
                let symbol = match get_str(rms, "symbol") {
                    Some(x) => x,
                    None => {
                        return None;
                    },
                };
                Some(
                    Level3UnsubscribeAcknowledgement {
                        method,
                        result: UnsubscribeResonseData { channel, symbol },
                        success,
                        time_in,
                        time_out,
                    },
                )
            },
            _ => None,
        },
        None => None,
    }
}

pub open spec fn spec_l3_snapshot(ms: Seq<(Seq<char>, JsonV)>) -> Option<Level3SnapshotV> {
    match (spec_get_str(ms, "channel"@), spec_get_str(ms, "type"@)) {
        (Some(channel), Some(kind)) => match obj_get(ms, "data"@) {
            Some(JsonV::Arr(da)) => match spec_snapshot_data_list(da, 0) {
                Some(data) => Some(Level3SnapshotV { channel, kind, data }),
                None => None,
            },
            _ => None,
        },
        _ => None,
    }
}

pub open spec fn l3_snapshot_wf(x: Level3Snapshot) -> bool {
    snapshot_data_list_wf(x.data@)
}

fn extract_l3_snapshot(o: &Vec<(Vec<char>, Json)>) -> (r: Option<Level3Snapshot>)
    ensures
        match r {
            Some(x) => spec_l3_snapshot(json_view_members(o@)) == Some(x@) && l3_snapshot_wf(x),
            None => spec_l3_snapshot(json_view_members(o@)) is None,
        },
{
    let channel = match get_str(o, "channel") {
        Some(x) => x,
        None => {
            return None;
        },
    };
    let kind = match get_str(o, "type") {
        Some(x) => x,
        None => {
            return None;
        },
    };
    match obj_get_exec(o, "data") {
        Some(dj) => match dj {
            Json::Arr(da) => match snapshot_data_list(da, 0) {
                Some(data) => Some(Level3Snapshot { channel, kind, data }),
                None => None,
            },
            _ => None,
        },
        None => None,
    }
}

pub open spec fn spec_l3_update(ms: Seq<(Seq<char>, JsonV)>) -> Option<Level3UpdateV> {
    match (spec_get_str(ms, "channel"@), spec_get_str(ms, "type"@)) {
        (Some(channel), Some(kind)) => match obj_get(ms, "data"@) {
            Some(JsonV::Arr(da)) => match spec_update_data_list(da, 0) {
                Some(data) => Some(Level3UpdateV { channel, kind, data }),
                None => None,
            },
            _ => None,
        },
        _ => None,
    }
}

pub open spec fn l3_update_wf(x: Level3Update) -> bool {
    update_data_list_wf(x.data@)
}

fn extract_l3_update(o: &Vec<(Vec<char>, Json)>) -> (r: Option<Level3Update>)
    ensures
        match r {
            Some(x) => spec_l3_update(json_view_members(o@)) == Some(x@) && l3_update_wf(x),
            None => spec_l3_update(json_view_members(o@)) is None,
        },
{
    let channel = match get_str(o, "channel") {
        Some(x) => x,
        None => {
            return None;
        },
    };
    let kind = match get_str(o, "type") {
        Some(x) => x,
        None => {
            return None;
        },
    };
    match obj_get_exec(o, "data") {
        Some(dj) => match dj {
            Json::Arr(da) => match update_data_list(da, 0) {
                Some(data) => Some(Level3Update { channel, kind, data }),
                None => None,
            },
            _ => None,
        },
        None => None,
    }
}

pub open spec fn spec_trade_snapshot(ms: Seq<(Seq<char>, JsonV)>) -> Option<TradeSnapshotV> {
    match (spec_get_str(ms, "channel"@), spec_get_str(ms, "type"@)) {
        (Some(channel), Some(kind)) => match obj_get(ms, "data"@) {
            Some(JsonV::Arr(da)) => match spec_trade_list(da, 0) {
                Some(data) => Some(TradeSnapshotV { channel, kind, data }),
                None => None,
            },
            _ => None,
        },
        _ => None,
    }
}

pub open spec fn trade_snapshot_wf(x: TradeSnapshot) -> bool {
    trades_wf(x.data@)
}

fn extract_trade_snapshot(o: &Vec<(Vec<char>, Json)>) -> (r: Option<TradeSnapshot>)
    ensures
        match r {
            Some(x) => spec_trade_snapshot(json_view_members(o@)) == Some(x@) && trade_snapshot_wf(
                x,
            ),
            None => spec_trade_snapshot(json_view_members(o@)) is None,
        },
{
    let channel = match get_str(o, "channel") {
        Some(x) => x,
        None => {
            return None;
        },
    };
    let kind = match get_str(o, "type") {
        Some(x) => x,
        None => {
            return None;
        },
    };
    match obj_get_exec(o, "data") {
        Some(dj) => match dj {
            Json::Arr(da) => match trade_list(da, 0) {
                Some(data) => Some(TradeSnapshot { channel, kind, data }),
                None => None,
            },
            _ => None,
        },
        None => None,
    }
}

pub open spec fn spec_trade_update(ms: Seq<(Seq<char>, JsonV)>) -> Option<TradeUpdateV> {
    match (spec_get_str(ms, "channel"@), spec_get_str(ms, "type"@)) {
        (Some(channel), Some(kind)) => match obj_get(ms, "data"@) {
            Some(JsonV::Arr(da)) => match spec_trade_list(da, 0) {
                Some(data) => Some(TradeUpdateV { channel, kind, data }),
                None => None,
            },
            _ => None,
        },
        _ => None,
    }
}

pub open spec fn trade_update_wf(x: TradeUpdate) -> bool {
    trades_wf(x.data@)
}

fn extract_trade_update(o: &Vec<(Vec<char>, Json)>) -> (r: Option<TradeUpdate>)
    ensures
        match r {
            Some(x) => spec_trade_update(json_view_members(o@)) == Some(x@) && trade_update_wf(x),
            None => spec_trade_update(json_view_members(o@)) is None,
        },
{
    let channel = match get_str(o, "channel") {
        Some(x) => x,
        None => {
            return None;
        },
    };
    let kind = match get_str(o, "type") {
        Some(x) => x,
        None => {
            return None;
        },
    };
    match obj_get_exec(o, "data") {
        Some(dj) => match dj {
            Json::Arr(da) => match trade_list(da, 0) {
                Some(data) => Some(TradeUpdate { channel, kind, data }),
                None => None,
            },
            _ => None,
        },
        None => None,
    }
}

// ---------------------------------------------------------------------
// The table.

/// The whole classification table: the rules in priority order, first match
/// wins; the matching rule's payload is then read, and a payload of the
/// wrong shape leaves the frame unclassified.
pub open spec fn spec_classify(j: JsonV) -> Option<ResponseV> {
    match j {
        JsonV::Obj(ms) => {
            if spec_has_result_token(ms) {
                match spec_token_response(ms) {
                    Some(x) => Some(ResponseV::TokenResponse(x)),
                    None => None,
                }
            } else if spec_channel_is(ms, "status"@) {
                match spec_status(ms) {
                    Some(x) => Some(ResponseV::Status(x)),
                    None => None,
                }
            } else if spec_channel_is(ms, "heartbeat"@) {
                match spec_heartbeat(ms) {
                    Some(x) => Some(ResponseV::HeartBeat(x)),
                    None => None,
                }
            } else if spec_method_is(ms, "subscribe"@) && obj_get(ms, "params"@) is Some {
                match spec_l3_subscribe(ms) {
                    Some(x) => Some(ResponseV::Level3Subscribe(x)),
                    None => None,
                }
            } else if spec_method_is(ms, "subscribe"@) && obj_get(ms, "result"@) is Some {
                match spec_l3_sub_ack(ms) {
                    Some(x) => Some(ResponseV::Level3SubscribeAck(x)),
                    None => None,
                }
            } else if spec_method_is(ms, "unsubscribe"@) && obj_get(ms, "params"@) is Some {
                match spec_l3_unsubscribe(ms) {
                    Some(x) => Some(ResponseV::Level3Unsubscribe(x)),
                    None => None,
                }
            } else if spec_method_is(ms, "unsubscribe"@) && obj_get(ms, "result"@) is Some {
                match spec_l3_unsub_ack(ms) {
                    Some(x) => Some(ResponseV::Level3UnsubscribeAck(x)),
                    None => None,
                }
            } else if spec_channel_is(ms, "level3"@) && spec_type_is(ms, "snapshot"@) {
                match spec_l3_snapshot(ms) {
                    Some(x) => Some(ResponseV::Level3Snapshot(x)),
                    None => None,
                }
            } else if spec_channel_is(ms, "level3"@) && spec_type_is(ms, "update"@) {
                match spec_l3_update(ms) {
                    Some(x) => Some(ResponseV::Level3Update(x)),
                    None => None,
                }
            } else if spec_channel_is(ms, "trade"@) && spec_type_is(ms, "snapshot"@) {
                match spec_trade_snapshot(ms) {
                    Some(x) => Some(ResponseV::TradeSnapshot(x)),
                    None => None,
                }
            } else if spec_channel_is(ms, "trade"@) && spec_type_is(ms, "update"@) {
                match spec_trade_update(ms) {
                    Some(x) => Some(ResponseV::TradeUpdate(x)),
                    None => None,
                }
            } else {
                None
            }
        },
        _ => None,
    }
}

/// A classified frame carries only well-formed decimals.
pub open spec fn response_wf(r: Response) -> bool {
    match r {
        Response::Level3Snapshot(x) => l3_snapshot_wf(x),
        Response::Level3Update(x) => l3_update_wf(x),
        Response::TradeSnapshot(x) => trade_snapshot_wf(x),
        Response::TradeUpdate(x) => trade_update_wf(x),
        _ => true,
    }
}

fn classify_json(j: &Json) -> (r: Option<Response>)
    ensures
        match r {
            Some(resp) => spec_classify(json_view(*j)) == Some(resp@) && response_wf(resp),
            None => spec_classify(json_view(*j)) is None,
        },
{
    match j {
        Json::Obj(o) => {
            if has_result_token(o) {
                match extract_token_response(o) {
                    Some(x) => Some(Response::TokenResponse(x)),
                    None => None,
                }
            } else if str_field_is(o, "channel", "status") {
                match extract_status(o) {
                    Some(x) => Some(Response::Status(x)),
                    None => None,
                }
            } else if str_field_is(o, "channel", "heartbeat") {
                match extract_heartbeat(o) {
                    Some(x) => Some(Response::HeartBeat(x)),
                    None => None,
                }
            } else if str_field_is(o, "method", "subscribe") && has_field(o, "params") {
                match extract_l3_subscribe(o) {
                    Some(x) => Some(Response::Level3Subscribe(x)),
                    None => None,
                }
            } else if str_field_is(o, "method", "subscribe") && has_field(o, "result") {
                match extract_l3_sub_ack(o) {
                    Some(x) => Some(Response::Level3SubscribeAck(x)),
                    None => None,
                }
            } else if str_field_is(o, "method", "unsubscribe") && has_field(o, "params") {
                match extract_l3_unsubscribe(o) {
                    Some(x) => Some(Response::Level3Unsubscribe(x)),
                    None => None,
                }
            } else if str_field_is(o, "method", "unsubscribe") && has_field(o, "result") {
                match extract_l3_unsub_ack(o) {
                    Some(x) => Some(Response::Level3UnsubscribeAck(x)),
                    None => None,
                }
            } else if str_field_is(o, "channel", "level3") && str_field_is(o, "type", "snapshot") {
                match extract_l3_snapshot(o) {
                    Some(x) => Some(Response::Level3Snapshot(x)),
                    None => None,
                }
            } else if str_field_is(o, "channel", "level3") && str_field_is(o, "type", "update") {
                match extract_l3_update(o) {
                    Some(x) => Some(Response::Level3Update(x)),
                    None => None,
                }
            } else if str_field_is(o, "channel", "trade") && str_field_is(o, "type", "snapshot") {
                match extract_trade_snapshot(o) {
                    Some(x) => Some(Response::TradeSnapshot(x)),
                    None => None,
                }
            } else if str_field_is(o, "channel", "trade") && str_field_is(o, "type", "update") {
                match extract_trade_update(o) {
                    Some(x) => Some(Response::TradeUpdate(x)),
                    None => None,
                }
            } else {
                None
            }
        },
        _ => None,
    }
}

/// What classifying a text frame yields: parse the text as JSON, then apply
/// the table.
pub open spec fn spec_parse_message(s: Seq<char>) -> Result<ResponseV, ParseError> {
    match spec_parse_json(s) {
        Some(j) => match spec_classify(j) {
            Some(r) => Ok(r),
            None => Err(ParseError::UnrecognizedShape),
        },
        None => Err(ParseError::InvalidJson),
    }
}

// ---------------------------------------------------------------------
// The round trip: a canonical frame of each reachable variant classifies
// back to that variant. The four trade subscribe and acknowledgement
// variants have no canonical frame of their own: the table's `method` rules
// catch their shapes first, so no input classifies to them.

/// A canonical heartbeat frame.
pub open spec fn canonical_heartbeat() -> JsonV {
    JsonV::Obj(seq![("channel"@, JsonV::Str("heartbeat"@))])
}

/// A canonical token reply with no errors and a fixed lifetime.
pub open spec fn canonical_token_response(token: Seq<char>) -> JsonV {
    JsonV::Obj(
        seq![
            ("error"@, JsonV::Arr(Seq::empty())),
            (
                "result"@,
                JsonV::Obj(
                    seq![("token"@, JsonV::Str(token)), ("expires"@, JsonV::Num("900"@))],
                ),
            ),
        ],
    )
}

/// A canonical status frame with no data rows.
pub open spec fn canonical_status() -> JsonV {
    JsonV::Obj(
        seq![
            ("channel"@, JsonV::Str("status"@)),
            ("type"@, JsonV::Str("update"@)),
            ("data"@, JsonV::Arr(Seq::empty())),
        ],
    )
}

/// A canonical Level-3 data frame with no data rows; `kind` is `snapshot`
/// or `update`.
pub open spec fn canonical_l3_data(kind: Seq<char>) -> JsonV {
    JsonV::Obj(
        seq![
            ("channel"@, JsonV::Str("level3"@)),
            ("type"@, JsonV::Str(kind)),
            ("data"@, JsonV::Arr(Seq::empty())),
        ],
    )
}

/// A canonical trade data frame with no data rows.
pub open spec fn canonical_trade_data(kind: Seq<char>) -> JsonV {
    JsonV::Obj(
        seq![
            ("channel"@, JsonV::Str("trade"@)),
            ("type"@, JsonV::Str(kind)),
            ("data"@, JsonV::Arr(Seq::empty())),
        ],
    )
}

/// A canonical Level-3 subscribe frame for one symbol.
pub open spec fn canonical_l3_subscribe(symbol: Seq<char>, token: Seq<char>) -> JsonV {
    JsonV::Obj(
        seq![
            ("method"@, JsonV::Str("subscribe"@)),
            (
                "params"@,
                JsonV::Obj(
                    seq![
                        ("channel"@, JsonV::Str("level3"@)),
                        ("symbol"@, JsonV::Arr(seq![JsonV::Str(symbol)])),
                        ("depth"@, JsonV::Num("10"@)),
                        ("snapshot"@, JsonV::Bool(true)),
                        ("token"@, JsonV::Str(token)),
                    ],
                ),
            ),
        ],
    )
}

/// A canonical Level-3 unsubscribe frame for one symbol.
pub open spec fn canonical_l3_unsubscribe(symbol: Seq<char>, token: Seq<char>) -> JsonV {
    JsonV::Obj(
        seq![
            ("method"@, JsonV::Str("unsubscribe"@)),
            (
                "params"@,
                JsonV::Obj(
                    seq![
                        ("channel"@, JsonV::Str("level3"@)),
                        ("symbol"@, JsonV::Arr(seq![JsonV::Str(symbol)])),
                        ("token"@, JsonV::Str(token)),
                    ],
                ),
            ),
        ],
    )
}

/// A canonical subscribe acknowledgement; `method` is `subscribe` or
/// `unsubscribe`.
pub open spec fn canonical_sub_ack(method: Seq<char>, symbol: Seq<char>) -> JsonV {
    JsonV::Obj(
        seq![
            ("method"@, JsonV::Str(method)),
            (
                "result"@,
                JsonV::Obj(
                    seq![
                        ("channel"@, JsonV::Str("level3"@)),
                        ("snapshot"@, JsonV::Bool(true)),
                        ("symbol"@, JsonV::Str(symbol)),
                    ],
                ),
            ),
            ("success"@, JsonV::Bool(true)),
            ("time_in"@, JsonV::Str("t0"@)),
            ("time_out"@, JsonV::Str("t1"@)),
        ],
    )
}

/// A canonical unsubscribe acknowledgement.
pub open spec fn canonical_unsub_ack(symbol: Seq<char>) -> JsonV {
    JsonV::Obj(
        seq![
            ("method"@, JsonV::Str("unsubscribe"@)),
            (
                "result"@,
                JsonV::Obj(
                    seq![("channel"@, JsonV::Str("level3"@)), ("symbol"@, JsonV::Str(symbol))],
                ),
            ),
            ("success"@, JsonV::Bool(true)),
            ("time_in"@, JsonV::Str("t0"@)),
            ("time_out"@, JsonV::Str("t1"@)),
        ],
    )
}

/// A key that no member carries is not found.
pub proof fn lemma_obj_get_none(ms: Seq<(Seq<char>, JsonV)>, key: Seq<char>)
    requires
        forall|k: int| 0 <= k < ms.len() ==> (#[trigger] ms[k]).0 != key,
    ensures
        obj_get(ms, key) is None,
    decreases ms.len(),
{
    if ms.len() > 0 {
        assert(ms[0].0 != key);
        assert(forall|k: int|
            0 <= k < ms.drop_first().len() ==> #[trigger] ms.drop_first()[k] == ms[k + 1]);
        lemma_obj_get_none(ms.drop_first(), key);
    }
}

/// The first member carrying the key is the one found.
pub proof fn lemma_obj_get_at(ms: Seq<(Seq<char>, JsonV)>, key: Seq<char>, i: int)
    requires
        0 <= i < ms.len(),
        ms[i].0 == key,
        forall|k: int| 0 <= k < i ==> (#[trigger] ms[k]).0 != key,
    ensures
        obj_get(ms, key) == Some(ms[i].1),
    decreases ms.len(),
{
    if i > 0 {
        assert(ms[0].0 != key);
        assert(forall|k: int|
            0 <= k < ms.drop_first().len() ==> #[trigger] ms.drop_first()[k] == ms[k + 1]);
        lemma_obj_get_at(ms.drop_first(), key, i - 1);
    }
}

proof fn lemma_key_literals_distinct()
    ensures
        "channel"@ != "result"@,
        "channel"@ != "method"@,
        "channel"@ != "error"@,
        "channel"@ != "type"@,
        "channel"@ != "data"@,
        "channel"@ != "symbol"@,
        "channel"@ != "depth"@,
        "channel"@ != "snapshot"@,
        "channel"@ != "token"@,
        "channel"@ != "success"@,
        "channel"@ != "time_in"@,
        "channel"@ != "time_out"@,
        "channel"@ != "params"@,
        "depth"@ != "snapshot"@,
        "error"@ != "result"@,
        "error"@ != "method"@,
        "error"@ != "type"@,
        "error"@ != "data"@,
        "method"@ != "result"@,
        "method"@ != "params"@,
        "method"@ != "type"@,
        "method"@ != "data"@,
        "method"@ != "success"@,
        "method"@ != "time_in"@,
        "method"@ != "time_out"@,
        "result"@ != "params"@,
        "result"@ != "type"@,
        "result"@ != "data"@,
        "result"@ != "success"@,
        "result"@ != "time_in"@,
        "result"@ != "time_out"@,
        "token"@ != "expires"@,
        "token"@ != "symbol"@,
        "token"@ != "snapshot"@,
        "token"@ != "depth"@,
        "type"@ != "data"@,
        "params"@ != "type"@,
        "params"@ != "data"@,
        "params"@ != "success"@,
        "params"@ != "time_in"@,
        "params"@ != "time_out"@,
        "symbol"@ != "depth"@,
        "symbol"@ != "snapshot"@,
        "success"@ != "time_in"@,
        "success"@ != "time_out"@,
        "time_in"@ != "time_out"@,
        "status"@ != "heartbeat"@,
        "level3"@ != "status"@,
        "level3"@ != "heartbeat"@,
        "trade"@ != "status"@,
        "trade"@ != "heartbeat"@,
        "trade"@ != "level3"@,
        "subscribe"@ != "unsubscribe"@,
        "snapshot"@ != "update"@,
{
    reveal_strlit("channel");
    reveal_strlit("result");
    reveal_strlit("method");
    reveal_strlit("error");
    reveal_strlit("type");
    reveal_strlit("data");
    reveal_strlit("symbol");
    reveal_strlit("depth");
    reveal_strlit("snapshot");
    reveal_strlit("token");
    reveal_strlit("success");
    reveal_strlit("time_in");
    reveal_strlit("time_out");
    reveal_strlit("params");
    reveal_strlit("expires");
    reveal_strlit("status");
    reveal_strlit("heartbeat");
    reveal_strlit("level3");
    reveal_strlit("trade");
    reveal_strlit("subscribe");
    reveal_strlit("unsubscribe");
    reveal_strlit("update");
    assert("channel"@.len() == 7 && "channel"@[0] == 'c');
    assert("result"@.len() == 6 && "result"@[0] == 'r');
    assert("method"@.len() == 6 && "method"@[0] == 'm');
    assert("error"@.len() == 5 && "error"@[0] == 'e');
    assert("type"@.len() == 4 && "type"@[0] == 't');
    assert("data"@.len() == 4 && "data"@[0] == 'd');
    assert("symbol"@.len() == 6 && "symbol"@[0] == 's' && "symbol"@[1] == 'y');
    assert("depth"@.len() == 5 && "depth"@[0] == 'd');
    assert("snapshot"@.len() == 8 && "snapshot"@[0] == 's');
    assert("token"@.len() == 5 && "token"@[0] == 't' && "token"@[1] == 'o');
    assert("success"@.len() == 7 && "success"@[0] == 's');
    assert("time_in"@.len() == 7 && "time_in"@[0] == 't');
    assert("time_out"@.len() == 8 && "time_out"@[0] == 't' && "time_out"@[1] == 'i');
    assert("params"@.len() == 6 && "params"@[0] == 'p');
    assert("expires"@.len() == 7 && "expires"@[0] == 'e');
    assert("status"@.len() == 6 && "status"@[0] == 's' && "status"@[1] == 't');
    assert("heartbeat"@.len() == 9 && "heartbeat"@[0] == 'h');
    assert("level3"@.len() == 6 && "level3"@[0] == 'l');
    assert("trade"@.len() == 5 && "trade"@[0] == 't' && "trade"@[1] == 'r');
    assert("subscribe"@.len() == 9 && "subscribe"@[0] == 's');
    assert("unsubscribe"@.len() == 11 && "unsubscribe"@[0] == 'u');
    assert("update"@.len() == 6 && "update"@[0] == 'u' && "update"@[1] == 'p');
}

/// The classifier sends a canonical heartbeat back to `HeartBeat`.
pub proof fn lemma_round_trip_heartbeat()
    ensures
        spec_classify(canonical_heartbeat()) == Some(
            ResponseV::HeartBeat(HeartBeatV { channel: "heartbeat"@ }),
        ),
{
    lemma_key_literals_distinct();
    let ms = seq![("channel"@, JsonV::Str("heartbeat"@))];
    assert(ms[0] == ("channel"@, JsonV::Str("heartbeat"@)));
    lemma_obj_get_none(ms, "result"@);
    lemma_obj_get_at(ms, "channel"@, 0);
    assert(obj_get(ms, "result"@) is None);
    assert(obj_get(ms, "channel"@) == Some(JsonV::Str("heartbeat"@)));
}

/// The classifier sends a canonical token reply back to `TokenResponse`.
pub proof fn lemma_round_trip_token_response(token: Seq<char>)
    ensures
        spec_classify(canonical_token_response(token)) == Some(
            ResponseV::TokenResponse(
                TokenResponseV {
                    error: Seq::empty(),
                    result: TokenResultDataV { token, expires: 900 },
                },
            ),
        ),
{
    lemma_key_literals_distinct();
    let rms = seq![("token"@, JsonV::Str(token)), ("expires"@, JsonV::Num("900"@))];
    let ms = seq![("error"@, JsonV::Arr(Seq::<JsonV>::empty())), ("result"@, JsonV::Obj(rms))];
    assert(ms[0] == ("error"@, JsonV::Arr(Seq::<JsonV>::empty())));
    assert(ms[1] == ("result"@, JsonV::Obj(rms)));
    assert(rms[0] == ("token"@, JsonV::Str(token)));
    assert(rms[1] == ("expires"@, JsonV::Num("900"@)));
    lemma_obj_get_at(ms, "result"@, 1);
    lemma_obj_get_at(ms, "error"@, 0);
    lemma_obj_get_at(rms, "token"@, 0);
    lemma_obj_get_at(rms, "expires"@, 1);
    assert(obj_get(ms, "result"@) == Some(JsonV::Obj(rms)));
    assert(obj_get(rms, "token"@) == Some(JsonV::Str(token)));
    assert(spec_has_result_token(ms));
    assert(obj_get(ms, "error"@) == Some(JsonV::Arr(Seq::<JsonV>::empty())));
    assert(spec_str_list(Seq::<JsonV>::empty(), 0) == Some(Seq::<Seq<char>>::empty()));
    assert(obj_get(rms, "expires"@) == Some(JsonV::Num("900"@)));
    reveal_strlit("900");
    assert("900"@.len() == 3);
    let t = "900"@;
    assert(t[0] == '9' && t[1] == '0' && t[2] == '0');
    assert(all_digits(t));
    assert(crate::decimal::digit_val('9') == 9);
    assert(crate::decimal::digit_val('0') == 0);
    let d1: Seq<char> = seq!['9'];
    let d2: Seq<char> = seq!['9', '0'];
    assert(digits_val(Seq::<char>::empty()) == 0);
    assert(d1.drop_last() =~= Seq::<char>::empty());
    assert(d1.last() == '9');
    assert(digits_val(d1) == digits_val(d1.drop_last()) * 10 + crate::decimal::digit_val(
        d1.last(),
    ));
    assert(digits_val(d1) == 9);
    assert(d2.drop_last() =~= d1);
    assert(d2.last() == '0');
    assert(digits_val(d2) == 90);
    assert(t.drop_last() =~= d2);
    assert(t.last() == '0');
    assert(digits_val(t) == 900);
    assert(spec_parse_u64(t) == Some(900u64));
    assert(spec_token_response(ms) == Some(
        TokenResponseV { error: Seq::empty(), result: TokenResultDataV { token, expires: 900 } },
    ));
}

/// The classifier sends a canonical status frame back to `Status`.
pub proof fn lemma_round_trip_status()
    ensures
        spec_classify(canonical_status()) == Some(
            ResponseV::Status(
                StatusV { channel: "status"@, data: Seq::empty(), kind: "update"@ },
            ),
        ),
{
    lemma_key_literals_distinct();
    let ms = seq![
        ("channel"@, JsonV::Str("status"@)),
        ("type"@, JsonV::Str("update"@)),
        ("data"@, JsonV::Arr(Seq::<JsonV>::empty())),
    ];
    assert(ms[0] == ("channel"@, JsonV::Str("status"@)));
    assert(ms[1] == ("type"@, JsonV::Str("update"@)));
    assert(ms[2] == ("data"@, JsonV::Arr(Seq::<JsonV>::empty())));
    lemma_obj_get_none(ms, "result"@);
    lemma_obj_get_at(ms, "channel"@, 0);
    lemma_obj_get_at(ms, "type"@, 1);
    lemma_obj_get_at(ms, "data"@, 2);
    assert(obj_get(ms, "result"@) is None);
    assert(obj_get(ms, "channel"@) == Some(JsonV::Str("status"@)));
    assert(obj_get(ms, "type"@) == Some(JsonV::Str("update"@)));
    assert(obj_get(ms, "data"@) == Some(JsonV::Arr(Seq::<JsonV>::empty())));
    assert(spec_status_list(Seq::<JsonV>::empty(), 0) == Some(Seq::<StatusDataV>::empty()));
    assert(spec_status(ms) == Some(
        StatusV { channel: "status"@, data: Seq::empty(), kind: "update"@ },
    ));
}

/// The classifier sends canonical Level-3 data frames back to
/// `Level3Snapshot` and `Level3Update`.
pub proof fn lemma_round_trip_l3_data()
    ensures
        spec_classify(canonical_l3_data("snapshot"@)) == Some(
            ResponseV::Level3Snapshot(
                Level3SnapshotV { channel: "level3"@, kind: "snapshot"@, data: Seq::empty() },
            ),
        ),
        spec_classify(canonical_l3_data("update"@)) == Some(
            ResponseV::Level3Update(
                Level3UpdateV { channel: "level3"@, kind: "update"@, data: Seq::empty() },
            ),
        ),
{
    lemma_key_literals_distinct();
    reveal_strlit("snapshot");
    reveal_strlit("update");
    lemma_round_trip_l3_one("snapshot"@);
    lemma_round_trip_l3_one("update"@);
    assert("snapshot"@ != "update"@);
}

proof fn lemma_round_trip_l3_one(kind: Seq<char>)
    ensures
        ({
            let ms = seq![
                ("channel"@, JsonV::Str("level3"@)),
                ("type"@, JsonV::Str(kind)),
                ("data"@, JsonV::Arr(Seq::<JsonV>::empty())),
            ];
            obj_get(ms, "result"@) is None && obj_get(ms, "channel"@) == Some(
                JsonV::Str("level3"@),
            ) && obj_get(ms, "method"@) is None && obj_get(ms, "type"@) == Some(JsonV::Str(kind))
                && obj_get(ms, "data"@) == Some(JsonV::Arr(Seq::<JsonV>::empty()))
                && spec_l3_snapshot(ms) == Some(
                Level3SnapshotV { channel: "level3"@, kind, data: Seq::empty() },
            ) && spec_l3_update(ms) == Some(
                Level3UpdateV { channel: "level3"@, kind, data: Seq::empty() },
            )
        }),
{
    lemma_key_literals_distinct();
    let ms = seq![
        ("channel"@, JsonV::Str("level3"@)),
        ("type"@, JsonV::Str(kind)),
        ("data"@, JsonV::Arr(Seq::<JsonV>::empty())),
    ];
    assert(ms[0] == ("channel"@, JsonV::Str("level3"@)));
    assert(ms[1] == ("type"@, JsonV::Str(kind)));
    assert(ms[2] == ("data"@, JsonV::Arr(Seq::<JsonV>::empty())));
    lemma_obj_get_none(ms, "result"@);
    lemma_obj_get_none(ms, "method"@);
    lemma_obj_get_at(ms, "channel"@, 0);
    lemma_obj_get_at(ms, "type"@, 1);
    lemma_obj_get_at(ms, "data"@, 2);
    assert(spec_snapshot_data_list(Seq::<JsonV>::empty(), 0) == Some(Seq::<
        Level3SnapshotDataV,
    >::empty()));
    assert(spec_update_data_list(Seq::<JsonV>::empty(), 0) == Some(Seq::<
        Level3UpdateDataV,
    >::empty()));
}

/// The classifier sends canonical trade data frames back to
/// `TradeSnapshot` and `TradeUpdate`.
pub proof fn lemma_round_trip_trade_data()
    ensures
        spec_classify(canonical_trade_data("snapshot"@)) == Some(
            ResponseV::TradeSnapshot(
                TradeSnapshotV { channel: "trade"@, kind: "snapshot"@, data: Seq::empty() },
            ),
        ),
        spec_classify(canonical_trade_data("update"@)) == Some(
            ResponseV::TradeUpdate(
                TradeUpdateV { channel: "trade"@, kind: "update"@, data: Seq::empty() },
            ),
        ),
{
    lemma_key_literals_distinct();
    reveal_strlit("snapshot");
    reveal_strlit("update");
    lemma_round_trip_trade_one("snapshot"@);
    lemma_round_trip_trade_one("update"@);
    assert("snapshot"@ != "update"@);
}

proof fn lemma_round_trip_trade_one(kind: Seq<char>)
    ensures
        ({
            let ms = seq![
                ("channel"@, JsonV::Str("trade"@)),
                ("type"@, JsonV::Str(kind)),
                ("data"@, JsonV::Arr(Seq::<JsonV>::empty())),
            ];
            obj_get(ms, "result"@) is None && obj_get(ms, "channel"@) == Some(
                JsonV::Str("trade"@),
            ) && obj_get(ms, "method"@) is None && obj_get(ms, "type"@) == Some(JsonV::Str(kind))
                && obj_get(ms, "data"@) == Some(JsonV::Arr(Seq::<JsonV>::empty()))
                && spec_trade_snapshot(ms) == Some(
                TradeSnapshotV { channel: "trade"@, kind, data: Seq::empty() },
            ) && spec_trade_update(ms) == Some(
                TradeUpdateV { channel: "trade"@, kind, data: Seq::empty() },
            )
        }),
{
    lemma_key_literals_distinct();
    let ms = seq![
        ("channel"@, JsonV::Str("trade"@)),
        ("type"@, JsonV::Str(kind)),
        ("data"@, JsonV::Arr(Seq::<JsonV>::empty())),
    ];
    assert(ms[0] == ("channel"@, JsonV::Str("trade"@)));
    assert(ms[1] == ("type"@, JsonV::Str(kind)));
    assert(ms[2] == ("data"@, JsonV::Arr(Seq::<JsonV>::empty())));
    lemma_obj_get_none(ms, "result"@);
    lemma_obj_get_none(ms, "method"@);
    lemma_obj_get_at(ms, "channel"@, 0);
    lemma_obj_get_at(ms, "type"@, 1);
    lemma_obj_get_at(ms, "data"@, 2);
    assert(spec_trade_list(Seq::<JsonV>::empty(), 0) == Some(Seq::<TradeDataV>::empty()));
}

/// The classifier sends a canonical Level-3 subscribe back to
/// `Level3Subscribe`.
pub proof fn lemma_round_trip_l3_subscribe(symbol: Seq<char>, token: Seq<char>)
    ensures
        spec_classify(canonical_l3_subscribe(symbol, token)) == Some(
            ResponseV::Level3Subscribe(
                Level3SubscribeV {
                    method: "subscribe"@,
                    params: Level3SubscribeParamsV {
                        channel: "level3"@,
                        symbol: seq![symbol],
                        depth: 10,
                        snapshot: true,
                        token,
                    },
                },
            ),
        ),
{
    lemma_key_literals_distinct();
    let pms = seq![
        ("channel"@, JsonV::Str("level3"@)),
        ("symbol"@, JsonV::Arr(seq![JsonV::Str(symbol)])),
        ("depth"@, JsonV::Num("10"@)),
        ("snapshot"@, JsonV::Bool(true)),
        ("token"@, JsonV::Str(token)),
    ];
    let ms = seq![("method"@, JsonV::Str("subscribe"@)), ("params"@, JsonV::Obj(pms))];
    assert(ms[0] == ("method"@, JsonV::Str("subscribe"@)));
    assert(ms[1] == ("params"@, JsonV::Obj(pms)));
    assert(pms[0] == ("channel"@, JsonV::Str("level3"@)));
    assert(pms[1] == ("symbol"@, JsonV::Arr(seq![JsonV::Str(symbol)])));
    assert(pms[2] == ("depth"@, JsonV::Num("10"@)));
    assert(pms[3] == ("snapshot"@, JsonV::Bool(true)));
    assert(pms[4] == ("token"@, JsonV::Str(token)));
    lemma_obj_get_none(ms, "result"@);
    lemma_obj_get_none(ms, "channel"@);
    lemma_obj_get_at(ms, "method"@, 0);
    lemma_obj_get_at(ms, "params"@, 1);
    lemma_obj_get_at(pms, "channel"@, 0);
    lemma_obj_get_at(pms, "symbol"@, 1);
    lemma_obj_get_at(pms, "depth"@, 2);
    lemma_obj_get_at(pms, "snapshot"@, 3);
    lemma_obj_get_at(pms, "token"@, 4);
    assert(obj_get(ms, "result"@) is None);
    assert(obj_get(ms, "channel"@) is None);
    assert(obj_get(ms, "method"@) == Some(JsonV::Str("subscribe"@)));
    assert(obj_get(ms, "params"@) == Some(JsonV::Obj(pms)));
    assert(obj_get(pms, "channel"@) == Some(JsonV::Str("level3"@)));
    assert(obj_get(pms, "symbol"@) == Some(JsonV::Arr(seq![JsonV::Str(symbol)])));
    assert(obj_get(pms, "depth"@) == Some(JsonV::Num("10"@)));
    assert(obj_get(pms, "snapshot"@) == Some(JsonV::Bool(true)));
    assert(obj_get(pms, "token"@) == Some(JsonV::Str(token)));
    reveal_strlit("10");
    let t = "10"@;
    assert(t.len() == 2 && t[0] == '1' && t[1] == '0');
    assert(all_digits(t));
    assert(crate::decimal::digit_val('1') == 1);
    assert(crate::decimal::digit_val('0') == 0);
    let d1: Seq<char> = seq!['1'];
    assert(digits_val(Seq::<char>::empty()) == 0);
    assert(d1.drop_last() =~= Seq::<char>::empty());
    assert(d1.last() == '1');
    assert(digits_val(d1) == digits_val(d1.drop_last()) * 10 + crate::decimal::digit_val(
        d1.last(),
    ));
    assert(digits_val(d1) == 1);
    assert(t.drop_last() =~= d1);
    assert(t.last() == '0');
    assert(digits_val(t) == 10);
    assert(spec_parse_u64(t) == Some(10u64));
    let sa = seq![JsonV::Str(symbol)];
    assert(spec_str_list(sa, 1) == Some(Seq::<Seq<char>>::empty()));
    assert(spec_str_list(sa, 0) == Some(seq![symbol])) by {
        assert(seq![symbol] + Seq::<Seq<char>>::empty() =~= seq![symbol]);
    }
    assert(spec_l3_subscribe(ms) == Some(
        Level3SubscribeV {
            method: "subscribe"@,
            params: Level3SubscribeParamsV {
                channel: "level3"@,
                symbol: seq![symbol],
                depth: 10,
                snapshot: true,
                token,
            },
        },
    ));
}

/// The classifier sends a canonical Level-3 unsubscribe back to
/// `Level3Unsubscribe`.
pub proof fn lemma_round_trip_l3_unsubscribe(symbol: Seq<char>, token: Seq<char>)
    ensures
        spec_classify(canonical_l3_unsubscribe(symbol, token)) == Some(
            ResponseV::Level3Unsubscribe(
                Level3UnsubscribeV {
                    method: "unsubscribe"@,
                    params: Level3UnsubscribeParamsV {
                        channel: "level3"@,
                        symbol: seq![symbol],
                        token,
                    },
                },
            ),
        ),
{
    lemma_key_literals_distinct();
    let pms = seq![
        ("channel"@, JsonV::Str("level3"@)),
        ("symbol"@, JsonV::Arr(seq![JsonV::Str(symbol)])),
        ("token"@, JsonV::Str(token)),
    ];
    let ms = seq![("method"@, JsonV::Str("unsubscribe"@)), ("params"@, JsonV::Obj(pms))];
    assert(ms[0] == ("method"@, JsonV::Str("unsubscribe"@)));
    assert(ms[1] == ("params"@, JsonV::Obj(pms)));
    assert(pms[0] == ("channel"@, JsonV::Str("level3"@)));
    assert(pms[1] == ("symbol"@, JsonV::Arr(seq![JsonV::Str(symbol)])));
    assert(pms[2] == ("token"@, JsonV::Str(token)));
    lemma_obj_get_none(ms, "result"@);
    lemma_obj_get_none(ms, "channel"@);
    lemma_obj_get_at(ms, "method"@, 0);
    lemma_obj_get_at(ms, "params"@, 1);
    lemma_obj_get_at(pms, "channel"@, 0);
    lemma_obj_get_at(pms, "symbol"@, 1);
    lemma_obj_get_at(pms, "token"@, 2);
    assert(obj_get(ms, "result"@) is None);
    assert(obj_get(ms, "channel"@) is None);
    assert(obj_get(ms, "method"@) == Some(JsonV::Str("unsubscribe"@)));
    assert(obj_get(ms, "params"@) == Some(JsonV::Obj(pms)));
    assert(obj_get(pms, "channel"@) == Some(JsonV::Str("level3"@)));
    assert(obj_get(pms, "symbol"@) == Some(JsonV::Arr(seq![JsonV::Str(symbol)])));
    assert(obj_get(pms, "token"@) == Some(JsonV::Str(token)));
    let sa = seq![JsonV::Str(symbol)];
    assert(spec_str_list(sa, 1) == Some(Seq::<Seq<char>>::empty()));
    assert(spec_str_list(sa, 0) == Some(seq![symbol])) by {
        assert(seq![symbol] + Seq::<Seq<char>>::empty() =~= seq![symbol]);
    }
    assert(spec_l3_unsubscribe(ms) == Some(
        Level3UnsubscribeV {
            method: "unsubscribe"@,
            params: Level3UnsubscribeParamsV { channel: "level3"@, symbol: seq![symbol], token },
        },
    ));
}

/// The classifier sends a canonical subscribe acknowledgement back to
/// `Level3SubscribeAck`, and a canonical unsubscribe acknowledgement back
/// to `Level3UnsubscribeAck`.
pub proof fn lemma_round_trip_acks(symbol: Seq<char>)
    ensures
        spec_classify(canonical_sub_ack("subscribe"@, symbol)) == Some(
            ResponseV::Level3SubscribeAck(
                Level3SubscribeAcknowledgementV {
                    method: "subscribe"@,
                    result: Level3SubscribeResonseDataV {
                        channel: "level3"@,
                        snapshot: true,
                        symbol,
                    },
                    success: true,
                    time_in: "t0"@,
                    time_out: "t1"@,
                },
            ),
        ),
        spec_classify(canonical_unsub_ack(symbol)) == Some(
            ResponseV::Level3UnsubscribeAck(
                Level3UnsubscribeAcknowledgementV {
                    method: "unsubscribe"@,
                    result: UnsubscribeResonseDataV { channel: "level3"@, symbol },
                    success: true,
                    time_in: "t0"@,
                    time_out: "t1"@,
                },
            ),
        ),
{
    lemma_key_literals_distinct();
    {
        let rms = seq![
            ("channel"@, JsonV::Str("level3"@)),
            ("snapshot"@, JsonV::Bool(true)),
            ("symbol"@, JsonV::Str(symbol)),
        ];
        let ms = seq![
            ("method"@, JsonV::Str("subscribe"@)),
            ("result"@, JsonV::Obj(rms)),
            ("success"@, JsonV::Bool(true)),
            ("time_in"@, JsonV::Str("t0"@)),
            ("time_out"@, JsonV::Str("t1"@)),
        ];
        assert(ms[0] == ("method"@, JsonV::Str("subscribe"@)));
        assert(ms[1] == ("result"@, JsonV::Obj(rms)));
        assert(ms[2] == ("success"@, JsonV::Bool(true)));
        assert(ms[3] == ("time_in"@, JsonV::Str("t0"@)));
        assert(ms[4] == ("time_out"@, JsonV::Str("t1"@)));
        assert(rms[0] == ("channel"@, JsonV::Str("level3"@)));
        assert(rms[1] == ("snapshot"@, JsonV::Bool(true)));
        assert(rms[2] == ("symbol"@, JsonV::Str(symbol)));
        lemma_obj_get_at(ms, "result"@, 1);
        lemma_obj_get_none(rms, "token"@);
        lemma_obj_get_none(ms, "channel"@);
        lemma_obj_get_none(ms, "params"@);
        lemma_obj_get_at(ms, "method"@, 0);
        lemma_obj_get_at(ms, "success"@, 2);
        lemma_obj_get_at(ms, "time_in"@, 3);
        lemma_obj_get_at(ms, "time_out"@, 4);
        lemma_obj_get_at(rms, "channel"@, 0);
        lemma_obj_get_at(rms, "snapshot"@, 1);
        lemma_obj_get_at(rms, "symbol"@, 2);
        assert(obj_get(ms, "result"@) == Some(JsonV::Obj(rms)));
        assert(obj_get(rms, "token"@) is None);
        assert(!spec_has_result_token(ms));
        assert(obj_get(ms, "channel"@) is None);
        assert(obj_get(ms, "method"@) == Some(JsonV::Str("subscribe"@)));
        assert(obj_get(ms, "params"@) is None);
        assert(obj_get(ms, "success"@) == Some(JsonV::Bool(true)));
        assert(obj_get(ms, "time_in"@) == Some(JsonV::Str("t0"@)));
        assert(obj_get(ms, "time_out"@) == Some(JsonV::Str("t1"@)));
        assert(obj_get(rms, "channel"@) == Some(JsonV::Str("level3"@)));
        assert(obj_get(rms, "snapshot"@) == Some(JsonV::Bool(true)));
        assert(obj_get(rms, "symbol"@) == Some(JsonV::Str(symbol)));
        assert(spec_l3_sub_ack(ms) == Some(
            Level3SubscribeAcknowledgementV {
                method: "subscribe"@,
                result: Level3SubscribeResonseDataV {
                    channel: "level3"@,
                    snapshot: true,
                    symbol,
                },
                success: true,
                time_in: "t0"@,
                time_out: "t1"@,
            },
        ));
    }
    {
        let rms = seq![("channel"@, JsonV::Str("level3"@)), ("symbol"@, JsonV::Str(symbol))];
        let ms = seq![
            ("method"@, JsonV::Str("unsubscribe"@)),
            ("result"@, JsonV::Obj(rms)),
            ("success"@, JsonV::Bool(true)),
            ("time_in"@, JsonV::Str("t0"@)),
            ("time_out"@, JsonV::Str("t1"@)),
        ];
        assert(ms[0] == ("method"@, JsonV::Str("unsubscribe"@)));
        assert(ms[1] == ("result"@, JsonV::Obj(rms)));
        assert(ms[2] == ("success"@, JsonV::Bool(true)));
        assert(ms[3] == ("time_in"@, JsonV::Str("t0"@)));
        assert(ms[4] == ("time_out"@, JsonV::Str("t1"@)));
        assert(rms[0] == ("channel"@, JsonV::Str("level3"@)));
        assert(rms[1] == ("symbol"@, JsonV::Str(symbol)));
        lemma_obj_get_at(ms, "result"@, 1);
        lemma_obj_get_none(rms, "token"@);
        lemma_obj_get_none(ms, "channel"@);
        lemma_obj_get_none(ms, "params"@);
        lemma_obj_get_at(ms, "method"@, 0);
        lemma_obj_get_at(ms, "success"@, 2);
        lemma_obj_get_at(ms, "time_in"@, 3);
        lemma_obj_get_at(ms, "time_out"@, 4);
        lemma_obj_get_at(rms, "channel"@, 0);
        lemma_obj_get_at(rms, "symbol"@, 1);
        assert(obj_get(ms, "result"@) == Some(JsonV::Obj(rms)));
        assert(obj_get(rms, "token"@) is None);
        assert(!spec_has_result_token(ms));
        assert(obj_get(ms, "channel"@) is None);
        assert(obj_get(ms, "method"@) == Some(JsonV::Str("unsubscribe"@)));
        assert(obj_get(ms, "params"@) is None);
        assert(obj_get(ms, "success"@) == Some(JsonV::Bool(true)));
        assert(obj_get(ms, "time_in"@) == Some(JsonV::Str("t0"@)));
        assert(obj_get(ms, "time_out"@) == Some(JsonV::Str("t1"@)));
        assert(obj_get(rms, "channel"@) == Some(JsonV::Str("level3"@)));
        assert(obj_get(rms, "symbol"@) == Some(JsonV::Str(symbol)));
        assert(spec_l3_unsub_ack(ms) == Some(
            Level3UnsubscribeAcknowledgementV {
                method: "unsubscribe"@,
                result: UnsubscribeResonseDataV { channel: "level3"@, symbol },
                success: true,
                time_in: "t0"@,
                time_out: "t1"@,
            },
        ));
    }
}

/// Turns one text frame into its tagged variant, exactly as
/// [`spec_parse_message`] says: an `Ok` for precisely the frames the table
/// accepts, `InvalidJson` when the text is no JSON document of this format,
/// and `UnrecognizedShape` when no rule fits the parsed shape.
pub fn parse_message(msg: &str) -> (r: Result<Response, ParseError>)
    ensures
        match r {
            Ok(resp) => spec_parse_message(msg@) == Ok::<ResponseV, ParseError>(resp@)
                && response_wf(resp),
            Err(e) => spec_parse_message(msg@) == Err::<ResponseV, ParseError>(e),
        },
{
    let chars = crate::strutil::str_to_chars(msg);
    match parse_json_chars(&chars) {
        Some(j) => match classify_json(&j) {
            Some(resp) => Ok(resp),
            None => Err(ParseError::UnrecognizedShape),
        },
        None => Err(ParseError::InvalidJson),
    }
}

} // verus!
