//! The resolver.
//!
//! The resolver maps configured names to stable identifiers: one exchange
//! row per name, one security row per symbol, one order-book row per
//! (exchange, security) pair. The store's rows are modeled by a
//! [`Registry`]; the caller persists the registry's growth and performs
//! the returned cache effects. Each operation finds an existing row or
//! creates one, and is proved idempotent.

use vstd::prelude::*;
use crate::decimal::{Dec, dec_zero};
use crate::strutil::str_eq;

verus! {

#[derive(Clone, Debug, PartialEq, Eq)]
pub struct ExchangeRecord {
    pub exchange_id: u64,
    pub exchange: String,
    pub created_at: String,
}

pub struct ExchangeRecordV {
    pub exchange_id: u64,
    pub exchange: Seq<char>,
    pub created_at: Seq<char>,
}

impl View for ExchangeRecord {
    type V = ExchangeRecordV;

    open spec fn view(&self) -> ExchangeRecordV {
        ExchangeRecordV {
            exchange_id: self.exchange_id,
            exchange: self.exchange@,
            created_at: self.created_at@,
        }
    }
}

#[derive(Clone, Debug, PartialEq, Eq)]
pub struct SecurityRecord {
    pub security_id: u64,
    pub symbol: String,
    pub created_at: String,
}

pub struct SecurityRecordV {
    pub security_id: u64,
    pub symbol: Seq<char>,
    pub created_at: Seq<char>,
}

impl View for SecurityRecord {
    type V = SecurityRecordV;

    open spec fn view(&self) -> SecurityRecordV {
        SecurityRecordV {
            security_id: self.security_id,
            symbol: self.symbol@,
            created_at: self.created_at@,
        }
    }
}

#[derive(Clone, Debug, PartialEq, Eq)]
pub struct OrderBookRecord {
    pub order_book_id: u64,
    pub exchange_id: u64,
    pub security_id: u64,
    pub symbol: String,
    pub exchange: String,
    pub buy_order_book_id: u64,
    pub sell_order_book_id: u64,
    pub total_volume: Dec,
    pub created_at: String,
    pub updated_at: String,
}

pub struct OrderBookRecordV {
    pub order_book_id: u64,
    pub exchange_id: u64,
    pub security_id: u64,
    pub symbol: Seq<char>,
    pub exchange: Seq<char>,
    pub buy_order_book_id: u64,
    pub sell_order_book_id: u64,
    pub total_volume: Dec,
    pub created_at: Seq<char>,
    pub updated_at: Seq<char>,
}

impl View for OrderBookRecord {
    type V = OrderBookRecordV;

    open spec fn view(&self) -> OrderBookRecordV {
        OrderBookRecordV {
            order_book_id: self.order_book_id,
            exchange_id: self.exchange_id,
            security_id: self.security_id,
            symbol: self.symbol@,
            exchange: self.exchange@,
            buy_order_book_id: self.buy_order_book_id,
            sell_order_book_id: self.sell_order_book_id,
            total_volume: self.total_volume,
            created_at: self.created_at@,
            updated_at: self.updated_at@,
        }
    }
}

/// The rows the resolver has ensured so far, and the next free identifier.
#[derive(Clone, Debug, PartialEq, Eq)]
pub struct Registry {
    pub exchanges: Vec<ExchangeRecord>,
    pub securities: Vec<SecurityRecord>,
    pub books: Vec<OrderBookRecord>,
    pub next_id: u64,
}

pub struct RegistryV {
    pub exchanges: Seq<ExchangeRecordV>,
    pub securities: Seq<SecurityRecordV>,
    pub books: Seq<OrderBookRecordV>,
    pub next_id: u64,
}

impl View for Registry {
    type V = RegistryV;

    open spec fn view(&self) -> RegistryV {
        RegistryV {
            exchanges: Seq::new(self.exchanges@.len(), |i: int| self.exchanges@[i]@),
            securities: Seq::new(self.securities@.len(), |i: int| self.securities@[i]@),
            books: Seq::new(self.books@.len(), |i: int| self.books@[i]@),
            next_id: self.next_id,
        }
    }
}

impl Registry {
    /// An empty registry whose identifiers start at one.
    pub fn new() -> (r: Registry)
        ensures
            r@.exchanges.len() == 0,
            r@.securities.len() == 0,
            r@.books.len() == 0,
            r@.next_id == 1,
            registry_wf(r@),
    {
        let r = Registry {
            exchanges: Vec::new(),
            securities: Vec::new(),
            books: Vec::new(),
            next_id: 1,
        };
        proof {
            assert(r@.exchanges =~= Seq::<ExchangeRecordV>::empty());
            assert(r@.securities =~= Seq::<SecurityRecordV>::empty());
            assert(r@.books =~= Seq::<OrderBookRecordV>::empty());
        }
        r
    }
}

/// One cache write the resolver asks for.
#[derive(Clone, Debug, PartialEq, Eq)]
pub enum ResolverEffect {
    CacheSetExchange { record: ExchangeRecord },
    CacheSetSecurity { record: SecurityRecord },
    CacheSetBook { record: OrderBookRecord },
}

pub enum ResolverEffectV {
    CacheSetExchange { record: ExchangeRecordV },
    CacheSetSecurity { record: SecurityRecordV },
    CacheSetBook { record: OrderBookRecordV },
}

impl View for ResolverEffect {
    type V = ResolverEffectV;

    open spec fn view(&self) -> ResolverEffectV {
        match self {
            ResolverEffect::CacheSetExchange { record } => ResolverEffectV::CacheSetExchange {
                record: record@,
            },
            ResolverEffect::CacheSetSecurity { record } => ResolverEffectV::CacheSetSecurity {
                record: record@,
            },
            ResolverEffect::CacheSetBook { record } => ResolverEffectV::CacheSetBook {
                record: record@,
            },
        }
    }
}

/// The index of the first exchange row with this name.
pub open spec fn find_exchange(es: Seq<ExchangeRecordV>, name: Seq<char>) -> Option<int>
    decreases es.len(),
{
    if es.len() == 0 {
        None
    } else if es[0].exchange == name {
        Some(0)
    } else {
        match find_exchange(es.drop_first(), name) {
            Some(i) => Some(i + 1),
            None => None,
        }
    }
}

/// The index of the first security row with this symbol.
pub open spec fn find_security(ss: Seq<SecurityRecordV>, symbol: Seq<char>) -> Option<int>
    decreases ss.len(),
{
    if ss.len() == 0 {
        None
    } else if ss[0].symbol == symbol {
        Some(0)
    } else {
        match find_security(ss.drop_first(), symbol) {
            Some(i) => Some(i + 1),
            None => None,
        }
    }
}

/// The index of the first book row for this (exchange, security) pair.
pub open spec fn find_book(bs: Seq<OrderBookRecordV>, exchange_id: u64, security_id: u64) -> Option<
    int,
>
    decreases bs.len(),
{
    if bs.len() == 0 {
        None
    } else if bs[0].exchange_id == exchange_id && bs[0].security_id == security_id {
        Some(0)
    } else {
        match find_book(bs.drop_first(), exchange_id, security_id) {
            Some(i) => Some(i + 1),
            None => None,
        }
    }
}

pub proof fn lemma_find_exchange_valid(es: Seq<ExchangeRecordV>, name: Seq<char>)
    ensures
        match find_exchange(es, name) {
            Some(i) => 0 <= i < es.len() && es[i].exchange == name,
            None => forall|k: int| 0 <= k < es.len() ==> es[k].exchange != name,
        },
    decreases es.len(),
{
    if es.len() > 0 && es[0].exchange != name {
        let t = es.drop_first();
        lemma_find_exchange_valid(t, name);
        match find_exchange(t, name) {
            Some(i) => {
                assert(t[i] == es[i + 1]);
            },
            None => {
                assert forall|k: int| 0 <= k < es.len() implies es[k].exchange != name by {
                    if k > 0 {
                        assert(t[k - 1] == es[k]);
                    }
                }
            },
        }
    }
}

pub proof fn lemma_find_security_valid(ss: Seq<SecurityRecordV>, symbol: Seq<char>)
    ensures
        match find_security(ss, symbol) {
            Some(i) => 0 <= i < ss.len() && ss[i].symbol == symbol,
            None => forall|k: int| 0 <= k < ss.len() ==> ss[k].symbol != symbol,
        },
    decreases ss.len(),
{
    if ss.len() > 0 && ss[0].symbol != symbol {
        let t = ss.drop_first();
        lemma_find_security_valid(t, symbol);
        match find_security(t, symbol) {
            Some(i) => {
                assert(t[i] == ss[i + 1]);
            },
            None => {
                assert forall|k: int| 0 <= k < ss.len() implies ss[k].symbol != symbol by {
                    if k > 0 {
                        assert(t[k - 1] == ss[k]);
                    }
                }
            },
        }
    }
}

pub proof fn lemma_find_book_valid(bs: Seq<OrderBookRecordV>, exchange_id: u64, security_id: u64)
    ensures
        match find_book(bs, exchange_id, security_id) {
            Some(i) => 0 <= i < bs.len() && bs[i].exchange_id == exchange_id && bs[i].security_id
                == security_id,
            None => forall|k: int|
                0 <= k < bs.len() ==> !((#[trigger] bs[k]).exchange_id == exchange_id
                    && bs[k].security_id == security_id),
        },
    decreases bs.len(),
{
    if bs.len() > 0 && !(bs[0].exchange_id == exchange_id && bs[0].security_id == security_id) {
        let t = bs.drop_first();
        lemma_find_book_valid(t, exchange_id, security_id);
        match find_book(t, exchange_id, security_id) {
            Some(i) => {
                assert(t[i] == bs[i + 1]);
            },
            None => {
                assert forall|k: int| 0 <= k < bs.len() implies !((
                #[trigger] bs[k]).exchange_id == exchange_id && bs[k].security_id == security_id) by {
                    if k > 0 {
                        assert(t[k - 1] == bs[k]);
                    }
                }
            },
        }
    }
}

/// Appending a row never hides an earlier match.
pub proof fn lemma_find_exchange_push(es: Seq<ExchangeRecordV>, name: Seq<char>, x: ExchangeRecordV)
    requires
        find_exchange(es, name) is Some,
    ensures
        find_exchange(es.push(x), name) == find_exchange(es, name),
    decreases es.len(),
{
    if es.len() > 0 {
        assert(es.push(x)[0] == es[0]);
        if es[0].exchange != name {
            assert(es.push(x).drop_first() =~= es.drop_first().push(x));
            lemma_find_exchange_push(es.drop_first(), name, x);
        }
    }
}

/// A fresh row at the end is found when nothing earlier matches.
pub proof fn lemma_find_exchange_push_new(
    es: Seq<ExchangeRecordV>,
    name: Seq<char>,
    x: ExchangeRecordV,
)
    requires
        find_exchange(es, name) is None,
        x.exchange == name,
    ensures
        find_exchange(es.push(x), name) == Some(es.len() as int),
    decreases es.len(),
{
    if es.len() == 0 {
        assert(es.push(x)[0] == x);
    } else {
        assert(es.push(x)[0] == es[0]);
        assert(es.push(x).drop_first() =~= es.drop_first().push(x));
        lemma_find_exchange_push_new(es.drop_first(), name, x);
    }
}

pub proof fn lemma_find_security_push(
    ss: Seq<SecurityRecordV>,
    symbol: Seq<char>,
    x: SecurityRecordV,
)
    requires
        find_security(ss, symbol) is Some,
    ensures
        find_security(ss.push(x), symbol) == find_security(ss, symbol),
    decreases ss.len(),
{
    if ss.len() > 0 {
        assert(ss.push(x)[0] == ss[0]);
        if ss[0].symbol != symbol {
            assert(ss.push(x).drop_first() =~= ss.drop_first().push(x));
            lemma_find_security_push(ss.drop_first(), symbol, x);
        }
    }
}

pub proof fn lemma_find_security_push_new(
    ss: Seq<SecurityRecordV>,
    symbol: Seq<char>,
    x: SecurityRecordV,
)
    requires
        find_security(ss, symbol) is None,
        x.symbol == symbol,
    ensures
        find_security(ss.push(x), symbol) == Some(ss.len() as int),
    decreases ss.len(),
{
    if ss.len() == 0 {
        assert(ss.push(x)[0] == x);
    } else {
        assert(ss.push(x)[0] == ss[0]);
        assert(ss.push(x).drop_first() =~= ss.drop_first().push(x));
        lemma_find_security_push_new(ss.drop_first(), symbol, x);
    }
}

pub proof fn lemma_find_book_push(
    bs: Seq<OrderBookRecordV>,
    exchange_id: u64,
    security_id: u64,
    x: OrderBookRecordV,
)
    requires
        find_book(bs, exchange_id, security_id) is Some,
    ensures
        find_book(bs.push(x), exchange_id, security_id) == find_book(bs, exchange_id, security_id),
    decreases bs.len(),
{
    if bs.len() > 0 {
        assert(bs.push(x)[0] == bs[0]);
        if !(bs[0].exchange_id == exchange_id && bs[0].security_id == security_id) {
            assert(bs.push(x).drop_first() =~= bs.drop_first().push(x));
            lemma_find_book_push(bs.drop_first(), exchange_id, security_id, x);
        }
    }
}

pub proof fn lemma_find_book_push_new(
    bs: Seq<OrderBookRecordV>,
    exchange_id: u64,
    security_id: u64,
    x: OrderBookRecordV,
)
    requires
        find_book(bs, exchange_id, security_id) is None,
        x.exchange_id == exchange_id,
        x.security_id == security_id,
    ensures
        find_book(bs.push(x), exchange_id, security_id) == Some(bs.len() as int),
    decreases bs.len(),
{
    if bs.len() == 0 {
        assert(bs.push(x)[0] == x);
    } else {
        assert(bs.push(x)[0] == bs[0]);
        assert(bs.push(x).drop_first() =~= bs.drop_first().push(x));
        lemma_find_book_push_new(bs.drop_first(), exchange_id, security_id, x);
    }
}

/// The registry's shape: every configured name maps to at most one row.
pub open spec fn registry_wf(r: RegistryV) -> bool {
    &&& forall|i: int, j: int|
        0 <= i < j < r.exchanges.len() ==> (#[trigger] r.exchanges[i].exchange) != (
        #[trigger] r.exchanges[j].exchange)
    &&& forall|i: int, j: int|
        0 <= i < j < r.securities.len() ==> (#[trigger] r.securities[i].symbol) != (
        #[trigger] r.securities[j].symbol)
    &&& forall|i: int, j: int|
        0 <= i < j < r.books.len() ==> !((#[trigger] r.books[i]).exchange_id
            == (#[trigger] r.books[j]).exchange_id && r.books[i].security_id
            == r.books[j].security_id)
}

/// What ensuring an exchange yields: the registry after, the row, whether a
/// row was created, and the cache mirror write.
pub open spec fn spec_ensure_exchange(r: RegistryV, name: Seq<char>, now: Seq<char>) -> (
    RegistryV,
    ExchangeRecordV,
    bool,
) {
    match find_exchange(r.exchanges, name) {
        Some(i) => (r, r.exchanges[i], false),
        None => {
            let rec = ExchangeRecordV { exchange_id: r.next_id, exchange: name, created_at: now };
            (
                RegistryV {
                    exchanges: r.exchanges.push(rec),
                    next_id: (r.next_id + 1) as u64,
                    ..r
                },
                rec,
                true,
            )
        },
    }
}

/// Finds or creates the exchange row with this name, exactly as
/// [`spec_ensure_exchange`] says, and mirrors the row into the cache.
#[verifier::loop_isolation(false)]
pub fn ensure_exchange(reg: &mut Registry, name: &str, now: &str) -> (r: (
    ExchangeRecord,
    Vec<ResolverEffect>,
))
    requires
        old(reg)@.next_id < u64::MAX,
        registry_wf(old(reg)@),
    ensures
        ({
            let (r2, rec, _created) = spec_ensure_exchange(old(reg)@, name@, now@);
            final(reg)@ == r2 && r.0@ == rec && r.1@.len() == 1 && r.1@[0]@
                == (ResolverEffectV::CacheSetExchange { record: rec })
        }),
        registry_wf(final(reg)@),
        final(reg)@.next_id <= old(reg)@.next_id + 1,
{
    let ghost r0 = reg@;
    let found = find_exchange_exec(&reg.exchanges, name);
    match found {
        Some(ix) => {
            let rec = ExchangeRecord {
                exchange_id: reg.exchanges[ix].exchange_id,
                exchange: reg.exchanges[ix].exchange.clone(),
                created_at: reg.exchanges[ix].created_at.clone(),
            };
            let mut effects: Vec<ResolverEffect> = Vec::new();
            let rec2 = ExchangeRecord {
                exchange_id: rec.exchange_id,
                exchange: rec.exchange.clone(),
                created_at: rec.created_at.clone(),
            };
            effects.push(ResolverEffect::CacheSetExchange { record: rec2 });
            (rec, effects)
        },
        None => {
            let rec = ExchangeRecord {
                exchange_id: reg.next_id,
                exchange: crate::strutil::chars_to_string(&crate::strutil::str_to_chars(name)),
                created_at: crate::strutil::chars_to_string(&crate::strutil::str_to_chars(now)),
            };
            let rec2 = ExchangeRecord {
                exchange_id: rec.exchange_id,
                exchange: rec.exchange.clone(),
                created_at: rec.created_at.clone(),
            };
            let rec3 = ExchangeRecord {
                exchange_id: rec.exchange_id,
                exchange: rec.exchange.clone(),
                created_at: rec.created_at.clone(),
            };
            reg.exchanges.push(rec2);
            reg.next_id = reg.next_id + 1;
            proof {
                assert(reg@.exchanges =~= r0.exchanges.push(rec@));
                assert(reg@.securities =~= r0.securities);
                assert(reg@.books =~= r0.books);
                lemma_find_exchange_valid(r0.exchanges, name@);
                assert forall|i: int, j: int|
                    0 <= i < j < reg@.exchanges.len() implies (
                #[trigger] reg@.exchanges[i].exchange) != (#[trigger] reg@.exchanges[j].exchange) by {
                    if j < r0.exchanges.len() {
                        assert(reg@.exchanges[i] == r0.exchanges[i]);
                        assert(reg@.exchanges[j] == r0.exchanges[j]);
                    } else {
                        assert(reg@.exchanges[j] == rec@);
                        assert(reg@.exchanges[i] == r0.exchanges[i]);
                        assert(r0.exchanges[i].exchange != name@);
                    }
                }
            }
            let mut effects: Vec<ResolverEffect> = Vec::new();
            effects.push(ResolverEffect::CacheSetExchange { record: rec3 });
            (rec, effects)
        },
    }
}

/// Looks an exchange row up by name, as [`find_exchange`] says.
#[verifier::loop_isolation(false)]
fn find_exchange_exec(es: &Vec<ExchangeRecord>, name: &str) -> (r: Option<usize>)
    ensures
        ({
            let esv = Seq::new(es@.len(), |i: int| es@[i]@);
            match r {
                Some(ix) => ix < es@.len() && find_exchange(esv, name@) == Some(ix as int),
                None => find_exchange(esv, name@) is None,
            }
        }),
{
    let ghost esv = Seq::new(es@.len(), |i: int| es@[i]@);
    let mut i: usize = 0;
    while i < es.len()
        invariant
            i <= es@.len(),
            forall|k: int| 0 <= k < i ==> esv[k].exchange != name@,
        decreases es@.len() - i,
    {
        if str_eq(es[i].exchange.as_str(), name) {
            proof {
                lemma_find_exchange_first(esv, name@, i as int);
            }
            return Some(i);
        }
        i += 1;
    }
    proof {
        lemma_find_exchange_valid(esv, name@);
        if find_exchange(esv, name@) is Some {
            let ix = find_exchange(esv, name@)->0;
            assert(esv[ix].exchange == name@);
        }
    }
    None
}

proof fn lemma_find_exchange_first(es: Seq<ExchangeRecordV>, name: Seq<char>, ix: int)
    requires
        0 <= ix < es.len(),
        es[ix].exchange == name,
        forall|k: int| 0 <= k < ix ==> es[k].exchange != name,
    ensures
        find_exchange(es, name) == Some(ix),
    decreases es.len(),
{
    if ix > 0 {
        let t = es.drop_first();
        assert(forall|k: int| 0 <= k < t.len() ==> t[k] == es[k + 1]);
        lemma_find_exchange_first(t, name, ix - 1);
    }
}

/// What ensuring one security yields.
pub open spec fn spec_ensure_security(r: RegistryV, symbol: Seq<char>, now: Seq<char>) -> (
    RegistryV,
    SecurityRecordV,
    bool,
) {
    match find_security(r.securities, symbol) {
        Some(i) => (r, r.securities[i], false),
        None => {
            let rec = SecurityRecordV { security_id: r.next_id, symbol, created_at: now };
            (
                RegistryV {
                    securities: r.securities.push(rec),
                    next_id: (r.next_id + 1) as u64,
                    ..r
                },
                rec,
                true,
            )
        },
    }
}

/// What ensuring a list of symbols yields: per symbol in input order.
pub open spec fn spec_ensure_securities(r: RegistryV, symbols: Seq<Seq<char>>, now: Seq<char>) -> (
    RegistryV,
    Seq<SecurityRecordV>,
)
    decreases symbols.len(),
{
    if symbols.len() == 0 {
        (r, Seq::empty())
    } else {
        let (r1, rec, _c) = spec_ensure_security(r, symbols[0], now);
        let (r2, rest) = spec_ensure_securities(r1, symbols.drop_first(), now);
        (r2, seq![rec] + rest)
    }
}

/// What ensuring one book for a security under an exchange yields. The
/// existence check is keyed by the (exchange, security) pair, and a fresh
/// book gets its own identifier and one for each side; its volume starts at
/// zero and `updated_at` starts as `created_at`.
pub open spec fn spec_ensure_book(
    r: RegistryV,
    sec: SecurityRecordV,
    ex: ExchangeRecordV,
    now: Seq<char>,
) -> (RegistryV, OrderBookRecordV, bool) {
    match find_book(r.books, ex.exchange_id, sec.security_id) {
        Some(i) => (r, r.books[i], false),
        None => {
            let rec = OrderBookRecordV {
                order_book_id: r.next_id,
                exchange_id: ex.exchange_id,
                security_id: sec.security_id,
                symbol: sec.symbol,
                exchange: ex.exchange,
                buy_order_book_id: (r.next_id + 1) as u64,
                sell_order_book_id: (r.next_id + 2) as u64,
                total_volume: dec_zero(),
                created_at: now,
                updated_at: now,
            };
            (RegistryV { books: r.books.push(rec), next_id: (r.next_id + 3) as u64, ..r }, rec, true)
        },
    }
}

/// What ensuring books for a list of securities yields, in input order.
pub open spec fn spec_ensure_books(
    r: RegistryV,
    secs: Seq<SecurityRecordV>,
    ex: ExchangeRecordV,
    now: Seq<char>,
) -> (RegistryV, Seq<OrderBookRecordV>)
    decreases secs.len(),
{
    if secs.len() == 0 {
        (r, Seq::empty())
    } else {
        let (r1, rec, _c) = spec_ensure_book(r, secs[0], ex, now);
        let (r2, rest) = spec_ensure_books(r1, secs.drop_first(), ex, now);
        (r2, seq![rec] + rest)
    }
}

/// Looks a security row up by symbol, as [`find_security`] says.
#[verifier::loop_isolation(false)]
fn find_security_exec(ss: &Vec<SecurityRecord>, symbol: &str) -> (r: Option<usize>)
    ensures
        ({
            let ssv = Seq::new(ss@.len(), |i: int| ss@[i]@);
            match r {
                Some(ix) => ix < ss@.len() && find_security(ssv, symbol@) == Some(ix as int),
                None => find_security(ssv, symbol@) is None,
            }
        }),
{
    let ghost ssv = Seq::new(ss@.len(), |i: int| ss@[i]@);
    let mut i: usize = 0;
    while i < ss.len()
        invariant
            i <= ss@.len(),
            forall|k: int| 0 <= k < i ==> ssv[k].symbol != symbol@,
        decreases ss@.len() - i,
    {
        if str_eq(ss[i].symbol.as_str(), symbol) {
            proof {
                lemma_find_security_first(ssv, symbol@, i as int);
            }
            return Some(i);
        }
        i += 1;
    }
    proof {
        lemma_find_security_valid(ssv, symbol@);
        if find_security(ssv, symbol@) is Some {
            let ix = find_security(ssv, symbol@)->0;
            assert(ssv[ix].symbol == symbol@);
        }
    }
    None
}

proof fn lemma_find_security_first(ss: Seq<SecurityRecordV>, symbol: Seq<char>, ix: int)
    requires
        0 <= ix < ss.len(),
        ss[ix].symbol == symbol,
        forall|k: int| 0 <= k < ix ==> ss[k].symbol != symbol,
    ensures
        find_security(ss, symbol) == Some(ix),
    decreases ss.len(),
{
    if ix > 0 {
        let t = ss.drop_first();
        assert(forall|k: int| 0 <= k < t.len() ==> t[k] == ss[k + 1]);
        lemma_find_security_first(t, symbol, ix - 1);
    }
}

/// Looks a book row up by its (exchange, security) pair, as [`find_book`]
/// says.
#[verifier::loop_isolation(false)]
fn find_book_exec(bs: &Vec<OrderBookRecord>, exchange_id: u64, security_id: u64) -> (r: Option<
    usize,
>)
    ensures
        ({
            let bsv = Seq::new(bs@.len(), |i: int| bs@[i]@);
            match r {
                Some(ix) => ix < bs@.len() && find_book(bsv, exchange_id, security_id) == Some(
                    ix as int,
                ),
                None => find_book(bsv, exchange_id, security_id) is None,
            }
        }),
{
    let ghost bsv = Seq::new(bs@.len(), |i: int| bs@[i]@);
    let mut i: usize = 0;
    while i < bs.len()
        invariant
            i <= bs@.len(),
            forall|k: int|
                0 <= k < i ==> !((#[trigger] bsv[k]).exchange_id == exchange_id
                    && bsv[k].security_id == security_id),
        decreases bs@.len() - i,
    {
        if bs[i].exchange_id == exchange_id && bs[i].security_id == security_id {
            proof {
                lemma_find_book_first(bsv, exchange_id, security_id, i as int);
            }
            return Some(i);
        }
        i += 1;
    }
    proof {
        lemma_find_book_valid(bsv, exchange_id, security_id);
        if find_book(bsv, exchange_id, security_id) is Some {
            let ix = find_book(bsv, exchange_id, security_id)->0;
            assert(bsv[ix].exchange_id == exchange_id && bsv[ix].security_id == security_id);
        }
    }
    None
}

proof fn lemma_find_book_first(
    bs: Seq<OrderBookRecordV>,
    exchange_id: u64,
    security_id: u64,
    ix: int,
)
    requires
        0 <= ix < bs.len(),
        bs[ix].exchange_id == exchange_id,
        bs[ix].security_id == security_id,
        forall|k: int|
            0 <= k < ix ==> !((#[trigger] bs[k]).exchange_id == exchange_id && bs[k].security_id
                == security_id),
    ensures
        find_book(bs, exchange_id, security_id) == Some(ix),
    decreases bs.len(),
{
    if ix > 0 {
        let t = bs.drop_first();
        assert(forall|k: int| 0 <= k < t.len() ==> t[k] == bs[k + 1]);
        lemma_find_book_first(t, exchange_id, security_id, ix - 1);
    }
}

fn copy_security(s: &SecurityRecord) -> (r: SecurityRecord)
    ensures
        r@ == s@,
{
    SecurityRecord {
        security_id: s.security_id,
        symbol: s.symbol.clone(),
        created_at: s.created_at.clone(),
    }
}

fn copy_book(b: &OrderBookRecord) -> (r: OrderBookRecord)
    ensures
        r@ == b@,
{
    OrderBookRecord {
        order_book_id: b.order_book_id,
        exchange_id: b.exchange_id,
        security_id: b.security_id,
        symbol: b.symbol.clone(),
        exchange: b.exchange.clone(),
        buy_order_book_id: b.buy_order_book_id,
        sell_order_book_id: b.sell_order_book_id,
        total_volume: b.total_volume,
        created_at: b.created_at.clone(),
        updated_at: b.updated_at.clone(),
    }
}

/// Finds or creates the security row for one symbol, exactly as
/// [`spec_ensure_security`] says, and mirrors the row into the cache.
#[verifier::loop_isolation(false)]
fn ensure_security(reg: &mut Registry, symbol: &str, now: &str, effects: &mut Vec<ResolverEffect>)
    -> (r: SecurityRecord)
    requires
        old(reg)@.next_id < u64::MAX,
        registry_wf(old(reg)@),
    ensures
        ({
            let (r2, rec, _c) = spec_ensure_security(old(reg)@, symbol@, now@);
            final(reg)@ == r2 && r@ == rec && final(effects)@.len() == old(effects)@.len() + 1
                && final(effects)@.subrange(0, old(effects)@.len() as int) == old(effects)@
                && final(effects)@.last()@ == (ResolverEffectV::CacheSetSecurity { record: rec })
        }),
        registry_wf(final(reg)@),
        final(reg)@.next_id <= old(reg)@.next_id + 1,
{
    let ghost r0 = reg@;
    match find_security_exec(&reg.securities, symbol) {
        Some(ix) => {
            let rec = copy_security(&reg.securities[ix]);
            let rec2 = copy_security(&rec);
            effects.push(ResolverEffect::CacheSetSecurity { record: rec2 });
            proof {
                assert(effects@.subrange(0, old(effects)@.len() as int) =~= old(effects)@);
            }
            rec
        },
        None => {
            let rec = SecurityRecord {
                security_id: reg.next_id,
                symbol: crate::strutil::chars_to_string(&crate::strutil::str_to_chars(symbol)),
                created_at: crate::strutil::chars_to_string(&crate::strutil::str_to_chars(now)),
            };
            let rec2 = copy_security(&rec);
            let rec3 = copy_security(&rec);
            reg.securities.push(rec2);
            reg.next_id = reg.next_id + 1;
            proof {
                assert(reg@.securities =~= r0.securities.push(rec@));
                assert(reg@.exchanges =~= r0.exchanges);
                assert(reg@.books =~= r0.books);
                lemma_find_security_valid(r0.securities, symbol@);
                assert forall|i: int, j: int|
                    0 <= i < j < reg@.securities.len() implies (
                #[trigger] reg@.securities[i].symbol) != (#[trigger] reg@.securities[j].symbol) by {
                    if j < r0.securities.len() {
                        assert(reg@.securities[i] == r0.securities[i]);
                        assert(reg@.securities[j] == r0.securities[j]);
                    } else {
                        assert(reg@.securities[j] == rec@);
                        assert(reg@.securities[i] == r0.securities[i]);
                        assert(r0.securities[i].symbol != symbol@);
                    }
                }
            }
            effects.push(ResolverEffect::CacheSetSecurity { record: rec3 });
            proof {
                assert(effects@.subrange(0, old(effects)@.len() as int) =~= old(effects)@);
            }
            rec
        },
    }
}

/// Finds or creates the security rows for the symbols, in input order,
/// exactly as [`spec_ensure_securities`] says, mirroring each into the
/// cache.
#[verifier::loop_isolation(false)]
pub fn ensure_securities(reg: &mut Registry, symbols: &Vec<String>, now: &str) -> (r: (
    Vec<SecurityRecord>,
    Vec<ResolverEffect>,
))
    requires
        old(reg)@.next_id + symbols@.len() <= u64::MAX,
        registry_wf(old(reg)@),
    ensures
        ({
            let syms = Seq::new(symbols@.len(), |i: int| symbols@[i]@);
            let (r2, recs) = spec_ensure_securities(old(reg)@, syms, now@);
            final(reg)@ == r2 && Seq::new(r.0@.len(), |i: int| r.0@[i]@) == recs && r.1@.len()
                == recs.len() && (forall|k: int|
                0 <= k < recs.len() ==> (#[trigger] r.1@[k])@ == (ResolverEffectV::CacheSetSecurity {
                    record: recs[k],
                }))
        }),
        registry_wf(final(reg)@),
        final(reg)@.next_id <= old(reg)@.next_id + symbols@.len(),
        r.0@.len() == symbols@.len(),
{
    let ghost syms = Seq::new(symbols@.len(), |i: int| symbols@[i]@);
    let ghost r0 = reg@;
    let mut recs: Vec<SecurityRecord> = Vec::new();
    let mut effects: Vec<ResolverEffect> = Vec::new();
    proof {
        assert(syms.subrange(0, syms.len() as int) =~= syms);
    }
    let mut i: usize = 0;
    while i < symbols.len()
        invariant
            i <= symbols@.len(),
            syms == Seq::new(symbols@.len(), |k: int| symbols@[k]@),
            registry_wf(reg@),
            reg@.next_id + (symbols@.len() - i) <= u64::MAX,
            reg@.next_id <= r0.next_id + i,
            recs@.len() == i,
            effects@.len() == i,
            ({
                let (rf, rest) = spec_ensure_securities(
                    reg@,
                    syms.subrange(i as int, syms.len() as int),
                    now@,
                );
                spec_ensure_securities(r0, syms, now@) == (
                    rf,
                    Seq::new(recs@.len(), |k: int| recs@[k]@) + rest,
                )
            }),
            forall|k: int|
                0 <= k < i ==> (#[trigger] effects@[k])@ == (ResolverEffectV::CacheSetSecurity {
                    record: recs@[k]@,
                }),
        decreases symbols@.len() - i,
    {
        let ghost suffix = syms.subrange(i as int, syms.len() as int);
        let ghost pre_recs = Seq::new(recs@.len(), |k: int| recs@[k]@);
        proof {
            assert(suffix[0] == syms[i as int]);
            assert(syms[i as int] == symbols@[i as int]@);
        }
        let ghost rpre = reg@;
        let ghost epre = effects@;
        let rec = ensure_security(reg, symbols[i].as_str(), now, &mut effects);
        recs.push(rec);
        proof {
            assert(suffix.drop_first() =~= syms.subrange(i as int + 1, syms.len() as int));
            let (r1s, recv, _c) = spec_ensure_security(rpre, suffix[0], now@);
            assert forall|k: int| 0 <= k < i + 1 implies (#[trigger] effects@[k])@ == (
                ResolverEffectV::CacheSetSecurity { record: recs@[k]@ }
            ) by {
                if k < i {
                    assert(effects@.subrange(0, epre.len() as int)[k] == effects@[k]);
                    assert(epre[k] == effects@[k]);
                    assert(recs@[k] == recs@.subrange(0, i as int)[k]);
                } else {
                    assert(effects@[k] == effects@.last());
                    assert(recs@[k] == rec);
                }
            }
            let newrecs = Seq::new(recs@.len(), |k: int| recs@[k]@);
            assert(newrecs =~= pre_recs.push(recv));
            let (rf, rest) = spec_ensure_securities(reg@, suffix.drop_first(), now@);
            assert(pre_recs + (seq![recv] + rest) =~= newrecs + rest);
        }
        i += 1;
    }
    proof {
        assert(syms.subrange(symbols@.len() as int, syms.len() as int).len() == 0);
        let (rf, rest) = spec_ensure_securities(
            reg@,
            syms.subrange(symbols@.len() as int, syms.len() as int),
            now@,
        );
        assert(Seq::new(recs@.len(), |k: int| recs@[k]@) + rest =~= Seq::new(
            recs@.len(),
            |k: int| recs@[k]@,
        ));
    }
    (recs, effects)
}

/// Finds or creates the book row for one security under the exchange,
/// exactly as [`spec_ensure_book`] says, and mirrors the row into the
/// cache. The existence check is keyed by the (exchange, security) pair.
#[verifier::loop_isolation(false)]
fn ensure_book(
    reg: &mut Registry,
    sec: &SecurityRecord,
    ex: &ExchangeRecord,
    now: &str,
    effects: &mut Vec<ResolverEffect>,
) -> (r: OrderBookRecord)
    requires
        old(reg)@.next_id + 3 <= u64::MAX,
        registry_wf(old(reg)@),
    ensures
        ({
            let (r2, rec, _c) = spec_ensure_book(old(reg)@, sec@, ex@, now@);
            final(reg)@ == r2 && r@ == rec && final(effects)@.len() == old(effects)@.len() + 1
                && final(effects)@.subrange(0, old(effects)@.len() as int) == old(effects)@
                && final(effects)@.last()@ == (ResolverEffectV::CacheSetBook { record: rec })
        }),
        registry_wf(final(reg)@),
        final(reg)@.next_id <= old(reg)@.next_id + 3,
{
    let ghost r0 = reg@;
    match find_book_exec(&reg.books, ex.exchange_id, sec.security_id) {
        Some(ix) => {
            let rec = copy_book(&reg.books[ix]);
            let rec2 = copy_book(&rec);
            effects.push(ResolverEffect::CacheSetBook { record: rec2 });
            proof {
                assert(effects@.subrange(0, old(effects)@.len() as int) =~= old(effects)@);
            }
            rec
        },
        None => {
            let rec = OrderBookRecord {
                order_book_id: reg.next_id,
                exchange_id: ex.exchange_id,
                security_id: sec.security_id,
                symbol: sec.symbol.clone(),
                exchange: ex.exchange.clone(),
                buy_order_book_id: reg.next_id + 1,
                sell_order_book_id: reg.next_id + 2,
                total_volume: crate::decimal::dec_new_zero(),
                created_at: crate::strutil::chars_to_string(&crate::strutil::str_to_chars(now)),
                updated_at: crate::strutil::chars_to_string(&crate::strutil::str_to_chars(now)),
            };
            let rec2 = copy_book(&rec);
            let rec3 = copy_book(&rec);
            reg.books.push(rec2);
            reg.next_id = reg.next_id + 3;
            proof {
                assert(reg@.books =~= r0.books.push(rec@));
                assert(reg@.exchanges =~= r0.exchanges);
                assert(reg@.securities =~= r0.securities);
                lemma_find_book_valid(r0.books, ex@.exchange_id, sec@.security_id);
                assert forall|i: int, j: int|
                    0 <= i < j < reg@.books.len() implies !((
                #[trigger] reg@.books[i]).exchange_id == (#[trigger] reg@.books[j]).exchange_id
                    && reg@.books[i].security_id == reg@.books[j].security_id) by {
                    if j < r0.books.len() {
                        assert(reg@.books[i] == r0.books[i]);
                        assert(reg@.books[j] == r0.books[j]);
                    } else {
                        assert(reg@.books[j] == rec@);
                        assert(reg@.books[i] == r0.books[i]);
                        assert(!(r0.books[i].exchange_id == ex@.exchange_id
                            && r0.books[i].security_id == sec@.security_id));
                    }
                }
            }
            effects.push(ResolverEffect::CacheSetBook { record: rec3 });
            proof {
                assert(effects@.subrange(0, old(effects)@.len() as int) =~= old(effects)@);
            }
            rec
        },
    }
}

/// Finds or creates the book rows for the securities, in input order,
/// exactly as [`spec_ensure_books`] says, mirroring each into the cache.
#[verifier::loop_isolation(false)]
pub fn ensure_books(reg: &mut Registry, secs: &Vec<SecurityRecord>, ex: &ExchangeRecord, now: &str)
    -> (r: (Vec<OrderBookRecord>, Vec<ResolverEffect>))
    requires
        old(reg)@.next_id + 3 * secs@.len() <= u64::MAX,
        registry_wf(old(reg)@),
    ensures
        ({
            let secsv = Seq::new(secs@.len(), |i: int| secs@[i]@);
            let (r2, recs) = spec_ensure_books(old(reg)@, secsv, ex@, now@);
            final(reg)@ == r2 && Seq::new(r.0@.len(), |i: int| r.0@[i]@) == recs && r.1@.len()
                == recs.len() && (forall|k: int|
                0 <= k < recs.len() ==> (#[trigger] r.1@[k])@ == (ResolverEffectV::CacheSetBook {
                    record: recs[k],
                }))
        }),
        registry_wf(final(reg)@),
        final(reg)@.next_id <= old(reg)@.next_id + 3 * secs@.len(),
        r.0@.len() == secs@.len(),
{
    let ghost secsv = Seq::new(secs@.len(), |i: int| secs@[i]@);
    let ghost r0 = reg@;
    let mut recs: Vec<OrderBookRecord> = Vec::new();
    let mut effects: Vec<ResolverEffect> = Vec::new();
    proof {
        assert(secsv.subrange(0, secsv.len() as int) =~= secsv);
    }
    let mut i: usize = 0;
    while i < secs.len()
        invariant
            i <= secs@.len(),
            secsv == Seq::new(secs@.len(), |k: int| secs@[k]@),
            registry_wf(reg@),
            reg@.next_id + 3 * (secs@.len() - i) <= u64::MAX,
            reg@.next_id <= r0.next_id + 3 * i,
            recs@.len() == i,
            effects@.len() == i,
            ({
                let (rf, rest) = spec_ensure_books(
                    reg@,
                    secsv.subrange(i as int, secsv.len() as int),
                    ex@,
                    now@,
                );
                spec_ensure_books(r0, secsv, ex@, now@) == (
                    rf,
                    Seq::new(recs@.len(), |k: int| recs@[k]@) + rest,
                )
            }),
            forall|k: int|
                0 <= k < i ==> (#[trigger] effects@[k])@ == (ResolverEffectV::CacheSetBook {
                    record: recs@[k]@,
                }),
        decreases secs@.len() - i,
    {
        let ghost suffix = secsv.subrange(i as int, secsv.len() as int);
        let ghost pre_recs = Seq::new(recs@.len(), |k: int| recs@[k]@);
        proof {
            assert(suffix[0] == secsv[i as int]);
            assert(secsv[i as int] == secs@[i as int]@);
        }
        let ghost rpre = reg@;
        let ghost epre = effects@;
        let rec = ensure_book(reg, &secs[i], ex, now, &mut effects);
        recs.push(rec);
        proof {
            assert(suffix.drop_first() =~= secsv.subrange(i as int + 1, secsv.len() as int));
            let (r1s, recv, _c) = spec_ensure_book(rpre, suffix[0], ex@, now@);
            assert forall|k: int| 0 <= k < i + 1 implies (#[trigger] effects@[k])@ == (
                ResolverEffectV::CacheSetBook { record: recs@[k]@ }
            ) by {
                if k < i {
                    assert(effects@.subrange(0, epre.len() as int)[k] == effects@[k]);
                    assert(epre[k] == effects@[k]);
                    assert(recs@[k] == recs@.subrange(0, i as int)[k]);
                } else {
                    assert(effects@[k] == effects@.last());
                    assert(recs@[k] == rec);
                }
            }
            let newrecs = Seq::new(recs@.len(), |k: int| recs@[k]@);
            assert(newrecs =~= pre_recs.push(recv));
            let (rf, rest) = spec_ensure_books(reg@, suffix.drop_first(), ex@, now@);
            assert(pre_recs + (seq![recv] + rest) =~= newrecs + rest);
        }
        i += 1;
    }
    proof {
        assert(secsv.subrange(secs@.len() as int, secsv.len() as int).len() == 0);
        let (rf, rest) = spec_ensure_books(
            reg@,
            secsv.subrange(secs@.len() as int, secsv.len() as int),
            ex@,
            now@,
        );
        assert(Seq::new(recs@.len(), |k: int| recs@[k]@) + rest =~= Seq::new(
            recs@.len(),
            |k: int| recs@[k]@,
        ));
    }
    (recs, effects)
}

pub proof fn lemma_find_security_extend(
    a: Seq<SecurityRecordV>,
    b: Seq<SecurityRecordV>,
    symbol: Seq<char>,
)
    requires
        find_security(a, symbol) is Some,
    ensures
        find_security(a + b, symbol) == find_security(a, symbol),
    decreases b.len(),
{
    if b.len() == 0 {
        assert(a + b =~= a);
    } else {
        lemma_find_security_push(a, symbol, b[0]);
        assert(a + b =~= a.push(b[0]) + b.drop_first());
        lemma_find_security_extend(a.push(b[0]), b.drop_first(), symbol);
    }
}

pub proof fn lemma_find_book_extend(
    a: Seq<OrderBookRecordV>,
    b: Seq<OrderBookRecordV>,
    exchange_id: u64,
    security_id: u64,
)
    requires
        find_book(a, exchange_id, security_id) is Some,
    ensures
        find_book(a + b, exchange_id, security_id) == find_book(a, exchange_id, security_id),
    decreases b.len(),
{
    if b.len() == 0 {
        assert(a + b =~= a);
    } else {
        lemma_find_book_push(a, exchange_id, security_id, b[0]);
        assert(a + b =~= a.push(b[0]) + b.drop_first());
        lemma_find_book_extend(a.push(b[0]), b.drop_first(), exchange_id, security_id);
    }
}

/// Ensuring a security keeps the registry's shape, touches only the
/// security rows, and leaves the symbol's row findable.
pub proof fn lemma_ensure_security_wf(r: RegistryV, symbol: Seq<char>, now: Seq<char>)
    requires
        registry_wf(r),
    ensures
        ({
            let (r2, rec, _c) = spec_ensure_security(r, symbol, now);
            registry_wf(r2) && r2.exchanges == r.exchanges && r2.books == r.books
                && find_security(r2.securities, symbol) is Some && r2.securities[find_security(
                r2.securities,
                symbol,
            )->0] == rec && r2.securities.len() >= r.securities.len()
                && r2.securities.subrange(0, r.securities.len() as int) == r.securities
        }),
{
    let (r2, rec, c) = spec_ensure_security(r, symbol, now);
    match find_security(r.securities, symbol) {
        Some(i) => {
            lemma_find_security_valid(r.securities, symbol);
            assert(r2.securities.subrange(0, r.securities.len() as int) =~= r.securities);
        },
        None => {
            lemma_find_security_valid(r.securities, symbol);
            lemma_find_security_push_new(r.securities, symbol, rec);
            assert(r2.securities[r.securities.len() as int] == rec);
            assert forall|i: int, j: int|
                0 <= i < j < r2.securities.len() implies (
            #[trigger] r2.securities[i].symbol) != (#[trigger] r2.securities[j].symbol) by {
                if j < r.securities.len() {
                    assert(r2.securities[i] == r.securities[i]);
                    assert(r2.securities[j] == r.securities[j]);
                } else {
                    assert(r2.securities[j] == rec);
                    assert(r2.securities[i] == r.securities[i]);
                    assert(r.securities[i].symbol != symbol);
                }
            }
            assert(r2.securities.subrange(0, r.securities.len() as int) =~= r.securities);
        },
    }
}

/// Ensuring a list of symbols keeps the registry's shape and only appends
/// security rows.
pub proof fn lemma_ensure_securities_props(r: RegistryV, syms: Seq<Seq<char>>, now: Seq<char>)
    requires
        registry_wf(r),
    ensures
        ({
            let (r2, _recs) = spec_ensure_securities(r, syms, now);
            registry_wf(r2) && r2.exchanges == r.exchanges && r2.books == r.books
                && r2.securities.len() >= r.securities.len() && r2.securities.subrange(
                0,
                r.securities.len() as int,
            ) == r.securities
        }),
    decreases syms.len(),
{
    let (r2, _recs) = spec_ensure_securities(r, syms, now);
    if syms.len() == 0 {
        assert(r2.securities.subrange(0, r.securities.len() as int) =~= r.securities);
    } else {
        let (ra, _rec, _c) = spec_ensure_security(r, syms[0], now);
        lemma_ensure_security_wf(r, syms[0], now);
        lemma_ensure_securities_props(ra, syms.drop_first(), now);
        assert forall|k: int| 0 <= k < r.securities.len() implies r2.securities[k]
            == r.securities[k] by {
            assert(r2.securities.subrange(0, ra.securities.len() as int)[k] == r2.securities[k]);
            assert(ra.securities[k] == r2.securities[k]);
            assert(ra.securities.subrange(0, r.securities.len() as int)[k] == ra.securities[k]);
        }
        assert(r2.securities.subrange(0, r.securities.len() as int) =~= r.securities);
    }
}

/// Running `ensure_securities` twice yields the same rows and leaves the
/// registry as the first run left it.
pub proof fn lemma_ensure_securities_idempotent(
    r: RegistryV,
    syms: Seq<Seq<char>>,
    now1: Seq<char>,
    now2: Seq<char>,
)
    requires
        registry_wf(r),
    ensures
        ({
            let (r1, recs1) = spec_ensure_securities(r, syms, now1);
            let (r2, recs2) = spec_ensure_securities(r1, syms, now2);
            r2 == r1 && recs2 == recs1
        }),
    decreases syms.len(),
{
    if syms.len() > 0 {
        let s0 = syms[0];
        let (ra, rec0, _c0) = spec_ensure_security(r, s0, now1);
        lemma_ensure_security_wf(r, s0, now1);
        let (r1, rest1) = spec_ensure_securities(ra, syms.drop_first(), now1);
        lemma_ensure_securities_props(ra, syms.drop_first(), now1);
        let i0 = find_security(ra.securities, s0)->0;
        let ext = r1.securities.subrange(ra.securities.len() as int, r1.securities.len() as int);
        assert(r1.securities =~= ra.securities + ext) by {
            assert forall|k: int| 0 <= k < ra.securities.len() implies r1.securities[k]
                == ra.securities[k] by {
                assert(r1.securities.subrange(0, ra.securities.len() as int)[k]
                    == r1.securities[k]);
            }
        }
        lemma_find_security_extend(ra.securities, ext, s0);
        assert(find_security(r1.securities, s0) == Some(i0));
        assert(r1.securities[i0] == ra.securities[i0]) by {
            lemma_find_security_valid(ra.securities, s0);
        }
        assert(spec_ensure_security(r1, s0, now2) == (r1, rec0, false));
        lemma_ensure_securities_idempotent(ra, syms.drop_first(), now1, now2);
    }
}

/// Ensuring a book keeps the registry's shape, touches only the book rows,
/// and leaves the pair's row findable.
pub proof fn lemma_ensure_book_wf(
    r: RegistryV,
    sec: SecurityRecordV,
    ex: ExchangeRecordV,
    now: Seq<char>,
)
    requires
        registry_wf(r),
    ensures
        ({
            let (r2, rec, _c) = spec_ensure_book(r, sec, ex, now);
            registry_wf(r2) && r2.exchanges == r.exchanges && r2.securities == r.securities
                && find_book(r2.books, ex.exchange_id, sec.security_id) is Some && r2.books[
            find_book(r2.books, ex.exchange_id, sec.security_id)->0] == rec && r2.books.len()
                >= r.books.len() && r2.books.subrange(0, r.books.len() as int) == r.books
        }),
{
    let (r2, rec, c) = spec_ensure_book(r, sec, ex, now);
    match find_book(r.books, ex.exchange_id, sec.security_id) {
        Some(i) => {
            lemma_find_book_valid(r.books, ex.exchange_id, sec.security_id);
            assert(r2.books.subrange(0, r.books.len() as int) =~= r.books);
        },
        None => {
            lemma_find_book_valid(r.books, ex.exchange_id, sec.security_id);
            lemma_find_book_push_new(r.books, ex.exchange_id, sec.security_id, rec);
            assert(r2.books[r.books.len() as int] == rec);
            assert forall|i: int, j: int|
                0 <= i < j < r2.books.len() implies !((#[trigger] r2.books[i]).exchange_id == (
            #[trigger] r2.books[j]).exchange_id && r2.books[i].security_id
                == r2.books[j].security_id) by {
                if j < r.books.len() {
                    assert(r2.books[i] == r.books[i]);
                    assert(r2.books[j] == r.books[j]);
                } else {
                    assert(r2.books[j] == rec);
                    assert(r2.books[i] == r.books[i]);
                    assert(!(r.books[i].exchange_id == ex.exchange_id && r.books[i].security_id
                        == sec.security_id));
                }
            }
            assert(r2.books.subrange(0, r.books.len() as int) =~= r.books);
        },
    }
}

/// Ensuring books for a list keeps the registry's shape and only appends
/// book rows.
pub proof fn lemma_ensure_books_props(
    r: RegistryV,
    secs: Seq<SecurityRecordV>,
    ex: ExchangeRecordV,
    now: Seq<char>,
)
    requires
        registry_wf(r),
    ensures
        ({
            let (r2, _recs) = spec_ensure_books(r, secs, ex, now);
            registry_wf(r2) && r2.exchanges == r.exchanges && r2.securities == r.securities
                && r2.books.len() >= r.books.len() && r2.books.subrange(0, r.books.len() as int)
                == r.books
        }),
    decreases secs.len(),
{
    let (r2, _recs) = spec_ensure_books(r, secs, ex, now);
    if secs.len() == 0 {
        assert(r2.books.subrange(0, r.books.len() as int) =~= r.books);
    } else {
        let (ra, _rec, _c) = spec_ensure_book(r, secs[0], ex, now);
        lemma_ensure_book_wf(r, secs[0], ex, now);
        lemma_ensure_books_props(ra, secs.drop_first(), ex, now);
        assert forall|k: int| 0 <= k < r.books.len() implies r2.books[k] == r.books[k] by {
            assert(r2.books.subrange(0, ra.books.len() as int)[k] == r2.books[k]);
            assert(ra.books[k] == r2.books[k]);
            assert(ra.books.subrange(0, r.books.len() as int)[k] == ra.books[k]);
        }
        assert(r2.books.subrange(0, r.books.len() as int) =~= r.books);
    }
}

/// Running `ensure_books` twice yields the same book rows, with the same
/// identifiers, and leaves the registry as the first run left it.
pub proof fn lemma_ensure_books_idempotent(
    r: RegistryV,
    secs: Seq<SecurityRecordV>,
    ex: ExchangeRecordV,
    now1: Seq<char>,
    now2: Seq<char>,
)
    requires
        registry_wf(r),
    ensures
        ({
            let (r1, recs1) = spec_ensure_books(r, secs, ex, now1);
            let (r2, recs2) = spec_ensure_books(r1, secs, ex, now2);
            r2 == r1 && recs2 == recs1
        }),
    decreases secs.len(),
{
    if secs.len() > 0 {
        let s0 = secs[0];
        let (ra, rec0, _c0) = spec_ensure_book(r, s0, ex, now1);
        lemma_ensure_book_wf(r, s0, ex, now1);
        let (r1, rest1) = spec_ensure_books(ra, secs.drop_first(), ex, now1);
        lemma_ensure_books_props(ra, secs.drop_first(), ex, now1);
        let i0 = find_book(ra.books, ex.exchange_id, s0.security_id)->0;
        let ext = r1.books.subrange(ra.books.len() as int, r1.books.len() as int);
        assert(r1.books =~= ra.books + ext) by {
            assert forall|k: int| 0 <= k < ra.books.len() implies r1.books[k] == ra.books[k] by {
                assert(r1.books.subrange(0, ra.books.len() as int)[k] == r1.books[k]);
            }
        }
        lemma_find_book_extend(ra.books, ext, ex.exchange_id, s0.security_id);
        assert(find_book(r1.books, ex.exchange_id, s0.security_id) == Some(i0));
        assert(r1.books[i0] == ra.books[i0]) by {
            lemma_find_book_valid(ra.books, ex.exchange_id, s0.security_id);
        }
        assert(spec_ensure_book(r1, s0, ex, now2) == (r1, rec0, false));
        lemma_ensure_books_idempotent(ra, secs.drop_first(), ex, now1, now2);
    }
}

/// Running the operation twice yields the same row and leaves the registry
/// as the first run left it: ensuring an exchange is idempotent.
pub proof fn lemma_ensure_exchange_idempotent(
    r: RegistryV,
    name: Seq<char>,
    now1: Seq<char>,
    now2: Seq<char>,
)
    requires
        registry_wf(r),
    ensures
        ({
            let (r1, rec1, _c1) = spec_ensure_exchange(r, name, now1);
            let (r2, rec2, c2) = spec_ensure_exchange(r1, name, now2);
            r2 == r1 && rec2 == rec1 && !c2
        }),
{
    let (r1, rec1, _c1) = spec_ensure_exchange(r, name, now1);
    match find_exchange(r.exchanges, name) {
        Some(i) => {
            lemma_find_exchange_valid(r.exchanges, name);
        },
        None => {
            let rec = ExchangeRecordV { exchange_id: r.next_id, exchange: name, created_at: now1 };
            lemma_find_exchange_push_new(r.exchanges, name, rec);
            assert(r1.exchanges[r.exchanges.len() as int] == rec);
        },
    }
}

} // verus!
