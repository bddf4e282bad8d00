//! The Level-3 book applier.
//!
//! A [`BookState`] holds the open orders of both sides of one book and the
//! running `total_volume`. Applying a snapshot replaces the whole book;
//! applying an update walks the event's bid and ask entries in order. Both
//! return the new state together with the cache and store effects to
//! perform; the library computes, the caller writes.
//!
//! The balance invariant — `total_volume` equals the sum of the open
//! quantities on both sides — is stated by [`book_balanced`] and proved to
//! be established by snapshots and kept by updates.

use vstd::prelude::*;
use crate::decimal::{Dec, dec_wf, val18, dec_zero, spec_dec_add, spec_dec_sub, dec_add, dec_sub, lemma_dec_add_val18, lemma_dec_sub_val18};
use crate::classifier::{Level3Snapshot, Level3SnapshotV, Level3Update, Level3UpdateV, SnapshotOrder, SnapshotOrderV, UpdateOrder, UpdateOrderV, l3_snapshot_wf, l3_update_wf, snapshot_orders_wf, update_orders_wf, snapshot_data_wf, update_data_wf, snapshot_data_list_wf, update_data_list_wf};
use crate::strutil::str_eq;
use vstd::arithmetic::mul::{lemma_mul_basics, lemma_mul_nonnegative, lemma_mul_unary_negation, lemma_mul_strictly_positive};

verus! {

/// One side of a book.
#[derive(Clone, Copy, Debug, PartialEq, Eq, Structural)]
pub enum Side {
    Buy,
    Sell,
}

/// A resting order as the book keeps it.
#[derive(Clone, Debug, PartialEq, Eq)]
pub struct OpenOrder {
    pub order_id: String,
    pub price: Dec,
    pub qty: Dec,
}

pub struct OpenOrderV {
    pub order_id: Seq<char>,
    pub price: Dec,
    pub qty: Dec,
}

impl View for OpenOrder {
    type V = OpenOrderV;

    open spec fn view(&self) -> OpenOrderV {
        OpenOrderV { order_id: self.order_id@, price: self.price, qty: self.qty }
    }
}

/// The running state of one book.
#[derive(Clone, Debug, PartialEq, Eq)]
pub struct BookState {
    pub bids: Vec<OpenOrder>,
    pub asks: Vec<OpenOrder>,
    pub total_volume: Dec,
}

pub struct BookStateV {
    pub bids: Seq<OpenOrderV>,
    pub asks: Seq<OpenOrderV>,
    pub total_volume: Dec,
}

impl View for BookState {
    type V = BookStateV;

    open spec fn view(&self) -> BookStateV {
        BookStateV {
            bids: Seq::new(self.bids@.len(), |i: int| self.bids@[i]@),
            asks: Seq::new(self.asks@.len(), |i: int| self.asks@[i]@),
            total_volume: self.total_volume,
        }
    }
}

impl BookState {
    /// A book with no orders and zero volume.
    pub fn new() -> (r: BookState)
        ensures
            r@.bids.len() == 0,
            r@.asks.len() == 0,
            r@.total_volume == dec_zero(),
            book_wf(r@),
            book_balanced(r@),
    {
        let r = BookState { bids: Vec::new(), asks: Vec::new(), total_volume: crate::decimal::dec_new_zero() };
        proof {
            assert(r@.bids =~= Seq::<OpenOrderV>::empty());
            assert(r@.asks =~= Seq::<OpenOrderV>::empty());
        }
        r
    }
}

/// One cache or store write the applier asks for, in order.
#[derive(Clone, Debug, PartialEq, Eq)]
pub enum BookEffect {
    /// Write the order's hash entry under its side's key.
    CacheSetOrder { side: Side, order: OpenOrder },
    /// Remove the order's hash entry.
    CacheDelOrder { side: Side, order_id: String },
    /// Insert a new open-order row.
    StoreCreateOpen { side: Side, order: OpenOrder },
    /// Insert a modified-order audit row carrying the new quantity.
    StoreCreateModified { side: Side, order: OpenOrder },
    /// Delete the open-order rows with this exchange order id.
    StoreDeleteOpen { side: Side, order_id: String },
    /// Delete the modified-order rows with this exchange order id.
    StoreDeleteModified { side: Side, order_id: String },
    /// Refresh the book's cache entry with this total volume.
    CacheSetBook { total: Dec },
    /// Update the book row's total volume in the store.
    StoreSetBookVolume { total: Dec },
}

pub enum BookEffectV {
    CacheSetOrder { side: Side, order: OpenOrderV },
    CacheDelOrder { side: Side, order_id: Seq<char> },
    StoreCreateOpen { side: Side, order: OpenOrderV },
    StoreCreateModified { side: Side, order: OpenOrderV },
    StoreDeleteOpen { side: Side, order_id: Seq<char> },
    StoreDeleteModified { side: Side, order_id: Seq<char> },
    CacheSetBook { total: Dec },
    StoreSetBookVolume { total: Dec },
}

impl View for BookEffect {
    type V = BookEffectV;

    open spec fn view(&self) -> BookEffectV {
        match self {
            BookEffect::CacheSetOrder { side, order } => BookEffectV::CacheSetOrder {
                side: *side,
                order: order@,
            },
            BookEffect::CacheDelOrder { side, order_id } => BookEffectV::CacheDelOrder {
                side: *side,
                order_id: order_id@,
            },
            BookEffect::StoreCreateOpen { side, order } => BookEffectV::StoreCreateOpen {
                side: *side,
                order: order@,
            },
            BookEffect::StoreCreateModified { side, order } => BookEffectV::StoreCreateModified {
                side: *side,
                order: order@,
            },
            BookEffect::StoreDeleteOpen { side, order_id } => BookEffectV::StoreDeleteOpen {
                side: *side,
                order_id: order_id@,
            },
            BookEffect::StoreDeleteModified { side, order_id } => BookEffectV::StoreDeleteModified {
                side: *side,
                order_id: order_id@,
            },
            BookEffect::CacheSetBook { total } => BookEffectV::CacheSetBook { total: *total },
            BookEffect::StoreSetBookVolume { total } => BookEffectV::StoreSetBookVolume {
                total: *total,
            },
        }
    }
}

/// The index of the order with this id, if present.
pub open spec fn orders_find(os: Seq<OpenOrderV>, id: Seq<char>) -> Option<int>
    decreases os.len(),
{
    if os.len() == 0 {
        None
    } else if os[0].order_id == id {
        Some(0)
    } else {
        match orders_find(os.drop_first(), id) {
            Some(i) => Some(i + 1),
            None => None,
        }
    }
}

/// The orders without the one with this id (unchanged when absent).
pub open spec fn orders_remove(os: Seq<OpenOrderV>, id: Seq<char>) -> Seq<OpenOrderV> {
    match orders_find(os, id) {
        Some(i) => os.remove(i),
        None => os,
    }
}

/// Replaces or appends the order under its id: any order with the same id
/// leaves, and the new order joins at the end.
pub open spec fn orders_upsert(os: Seq<OpenOrderV>, o: OpenOrderV) -> Seq<OpenOrderV> {
    orders_remove(os, o.order_id).push(o)
}

/// The sum of the open quantities, over the common denominator.
pub open spec fn orders_sum(os: Seq<OpenOrderV>) -> int
    decreases os.len(),
{
    if os.len() == 0 {
        0
    } else {
        val18(os[0].qty) + orders_sum(os.drop_first())
    }
}

pub open spec fn orders_wf(os: Seq<OpenOrderV>) -> bool {
    &&& forall|i: int| 0 <= i < os.len() ==> dec_wf(#[trigger] os[i].price) && dec_wf(os[i].qty)
    &&& forall|i: int, j: int|
        0 <= i < j < os.len() ==> (#[trigger] os[i].order_id) != (#[trigger] os[j].order_id)
}

pub open spec fn orders_nonneg(os: Seq<OpenOrderV>) -> bool {
    forall|i: int| 0 <= i < os.len() ==> (#[trigger] os[i].qty).units >= 0
}

pub open spec fn book_wf(b: BookStateV) -> bool {
    orders_wf(b.bids) && orders_wf(b.asks) && dec_wf(b.total_volume)
}

pub open spec fn book_nonneg(b: BookStateV) -> bool {
    orders_nonneg(b.bids) && orders_nonneg(b.asks)
}

/// The balance invariant: the total volume is the sum of the open
/// quantities on both sides, over the common denominator.
pub open spec fn book_balanced(b: BookStateV) -> bool {
    val18(b.total_volume) == orders_sum(b.bids) + orders_sum(b.asks)
}

pub proof fn lemma_orders_find_valid(os: Seq<OpenOrderV>, id: Seq<char>)
    ensures
        match orders_find(os, id) {
            Some(i) => 0 <= i < os.len() && os[i].order_id == id,
            None => forall|k: int| 0 <= k < os.len() ==> os[k].order_id != id,
        },
    decreases os.len(),
{
    if os.len() > 0 && os[0].order_id != id {
        let t = os.drop_first();
        lemma_orders_find_valid(t, id);
        match orders_find(t, id) {
            Some(i) => {
                assert(t[i] == os[i + 1]);
            },
            None => {
                assert forall|k: int| 0 <= k < os.len() implies os[k].order_id != id by {
                    if k > 0 {
                        assert(t[k - 1] == os[k]);
                    }
                }
            },
        }
    }
}

/// Removing an element takes its quantity out of the sum.
pub proof fn lemma_orders_sum_remove(os: Seq<OpenOrderV>, i: int)
    requires
        0 <= i < os.len(),
    ensures
        orders_sum(os.remove(i)) == orders_sum(os) - val18(os[i].qty),
    decreases os.len(),
{
    if i == 0 {
        assert(os.remove(0) =~= os.drop_first());
    } else {
        assert(os.remove(i).drop_first() =~= os.drop_first().remove(i - 1));
        assert(os.remove(i)[0] == os[0]);
        lemma_orders_sum_remove(os.drop_first(), i - 1);
        assert(os.drop_first()[i - 1] == os[i]);
    }
}

/// Appending an element adds its quantity to the sum.
pub proof fn lemma_orders_sum_push(os: Seq<OpenOrderV>, o: OpenOrderV)
    ensures
        orders_sum(os.push(o)) == orders_sum(os) + val18(o.qty),
    decreases os.len(),
{
    assert(os.push(o).len() == os.len() + 1);
    assert(orders_sum(os.push(o)) == val18(os.push(o)[0].qty) + orders_sum(
        os.push(o).drop_first(),
    ));
    if os.len() == 0 {
        assert(os.push(o)[0] == o);
        assert(os.push(o).drop_first() =~= Seq::<OpenOrderV>::empty());
        assert(orders_sum(Seq::<OpenOrderV>::empty()) == 0);
    } else {
        assert(os.push(o).drop_first() =~= os.drop_first().push(o));
        assert(os.push(o)[0] == os[0]);
        lemma_orders_sum_push(os.drop_first(), o);
    }
}

/// What removing an order does to the sum: nothing when absent, minus the
/// stored quantity when present.
pub open spec fn removed_qty(os: Seq<OpenOrderV>, id: Seq<char>) -> int {
    match orders_find(os, id) {
        Some(i) => val18(os[i].qty),
        None => 0,
    }
}

pub proof fn lemma_orders_sum_remove_id(os: Seq<OpenOrderV>, id: Seq<char>)
    ensures
        orders_sum(orders_remove(os, id)) == orders_sum(os) - removed_qty(os, id),
{
    match orders_find(os, id) {
        Some(i) => {
            lemma_orders_find_valid(os, id);
            lemma_orders_sum_remove(os, i);
        },
        None => {},
    }
}

pub proof fn lemma_orders_sum_upsert(os: Seq<OpenOrderV>, o: OpenOrderV)
    ensures
        orders_sum(orders_upsert(os, o)) == orders_sum(os) - removed_qty(os, o.order_id) + val18(
            o.qty,
        ),
{
    lemma_orders_sum_remove_id(os, o.order_id);
    lemma_orders_sum_push(orders_remove(os, o.order_id), o);
}

/// Each order of a well-formed side carries well-formed decimals.
pub proof fn lemma_orders_wf_at(os: Seq<OpenOrderV>, k: int)
    requires
        orders_wf(os),
        0 <= k < os.len(),
    ensures
        dec_wf(os[k].price),
        dec_wf(os[k].qty),
{
    assert(dec_wf(os[k].price));
    assert(dec_wf(os[k].qty));
}

pub proof fn lemma_orders_wf_remove(os: Seq<OpenOrderV>, id: Seq<char>)
    requires
        orders_wf(os),
    ensures
        orders_wf(orders_remove(os, id)),
        orders_nonneg(os) ==> orders_nonneg(orders_remove(os, id)),
        forall|k: int|
            0 <= k < orders_remove(os, id).len() ==> (#[trigger] orders_remove(os, id)[k].order_id)
                != id,
{
    lemma_orders_find_valid(os, id);
    match orders_find(os, id) {
        Some(i) => {
            let r = os.remove(i);
            assert forall|k: int| 0 <= k < r.len() implies r[k].order_id != id by {
                if k < i {
                    assert(r[k] == os[k]);
                } else {
                    assert(r[k] == os[k + 1]);
                }
            }
            assert forall|k: int| 0 <= k < r.len() implies dec_wf(#[trigger] r[k].price) && dec_wf(
                r[k].qty,
            ) by {
                if k < i {
                    assert(r[k] == os[k]);
                    lemma_orders_wf_at(os, k);
                } else {
                    assert(r[k] == os[k + 1]);
                    lemma_orders_wf_at(os, k + 1);
                }
            }
            assert forall|a: int, b: int| 0 <= a < b < r.len() implies (#[trigger] r[a].order_id)
                != (#[trigger] r[b].order_id) by {
                let oa = if a < i {
                    a
                } else {
                    a + 1
                };
                let ob = if b < i {
                    b
                } else {
                    b + 1
                };
                assert(r[a] == os[oa] && r[b] == os[ob]);
                assert(os[oa].order_id != os[ob].order_id);
            }
            if orders_nonneg(os) {
                assert forall|k: int| 0 <= k < r.len() implies (#[trigger] r[k].qty).units >= 0 by {
                    if k < i {
                        assert(r[k] == os[k]);
                        assert(os[k].qty.units >= 0);
                    } else {
                        assert(r[k] == os[k + 1]);
                        assert(os[k + 1].qty.units >= 0);
                    }
                }
            }
            assert(orders_wf(r));
            assert(orders_remove(os, id) == r);
        },
        None => {},
    }
}

pub proof fn lemma_orders_wf_upsert(os: Seq<OpenOrderV>, o: OpenOrderV)
    requires
        orders_wf(os),
        dec_wf(o.price),
        dec_wf(o.qty),
    ensures
        orders_wf(orders_upsert(os, o)),
        orders_nonneg(os) && o.qty.units >= 0 ==> orders_nonneg(orders_upsert(os, o)),
{
    lemma_orders_wf_remove(os, o.order_id);
    let r = orders_remove(os, o.order_id);
    let u = r.push(o);
    assert(forall|k: int| 0 <= k < r.len() ==> u[k] == r[k]);
    assert(u[r.len() as int] == o);
}

/// Applying an event can fail only when the running volume leaves `i128`.
#[derive(Clone, Copy, Debug, PartialEq, Eq, Structural)]
pub enum ApplyError {
    VolumeOverflow,
}

pub open spec fn open_of_snapshot(x: SnapshotOrderV) -> OpenOrderV {
    OpenOrderV { order_id: x.order_id, price: x.limit_price, qty: x.order_qty }
}

pub open spec fn open_of_update(x: UpdateOrderV) -> OpenOrderV {
    OpenOrderV { order_id: x.order_id, price: x.limit_price, qty: x.order_qty }
}

/// The book side a snapshot builds: each order upserted in event order.
pub open spec fn snapshot_side(xs: Seq<SnapshotOrderV>, acc: Seq<OpenOrderV>) -> Seq<OpenOrderV>
    decreases xs.len(),
{
    if xs.len() == 0 {
        acc
    } else {
        snapshot_side(xs.drop_first(), orders_upsert(acc, open_of_snapshot(xs[0])))
    }
}

/// The cache removals that supersede the prior state of one side.
pub open spec fn flush_effects(os: Seq<OpenOrderV>, side: Side) -> Seq<BookEffectV>
    decreases os.len(),
{
    if os.len() == 0 {
        Seq::empty()
    } else {
        seq![BookEffectV::CacheDelOrder { side, order_id: os[0].order_id }] + flush_effects(
            os.drop_first(),
            side,
        )
    }
}

/// The cache and store writes for one side of a snapshot.
pub open spec fn snapshot_side_effects(xs: Seq<SnapshotOrderV>, side: Side) -> Seq<BookEffectV>
    decreases xs.len(),
{
    if xs.len() == 0 {
        Seq::empty()
    } else {
        seq![
            BookEffectV::CacheSetOrder { side, order: open_of_snapshot(xs[0]) },
            BookEffectV::StoreCreateOpen { side, order: open_of_snapshot(xs[0]) },
        ] + snapshot_side_effects(xs.drop_first(), side)
    }
}

/// Adds the open quantities to `acc`, one checked addition at a time.
pub open spec fn sum_qtys_dec(os: Seq<OpenOrderV>, acc: Dec) -> Option<Dec>
    decreases os.len(),
{
    if os.len() == 0 {
        Some(acc)
    } else {
        match spec_dec_add(acc, os[0].qty) {
            Some(a) => sum_qtys_dec(os.drop_first(), a),
            None => None,
        }
    }
}

/// What applying a snapshot yields: outside the `level3` channel or with no
/// data the event is a no-op; otherwise the first data element replaces the
/// whole book, the prior cache keys are removed, and the new total is the
/// sum of the snapshot's quantities.
pub open spec fn spec_process_snapshot(b: BookStateV, ev: Level3SnapshotV) -> Result<
    (BookStateV, Seq<BookEffectV>),
    ApplyError,
> {
    if ev.channel != "level3"@ {
        Ok((b, Seq::empty()))
    } else if ev.data.len() == 0 {
        Ok((b, Seq::empty()))
    } else {
        let d = ev.data[0];
        let bids = snapshot_side(d.bids, Seq::empty());
        let asks = snapshot_side(d.asks, Seq::empty());
        match sum_qtys_dec(bids, dec_zero()) {
            Some(sb) => match sum_qtys_dec(asks, sb) {
                Some(total) => Ok(
                    (
                        BookStateV { bids, asks, total_volume: total },
                        flush_effects(b.bids, Side::Buy) + flush_effects(b.asks, Side::Sell)
                            + snapshot_side_effects(d.bids, Side::Buy) + snapshot_side_effects(
                            d.asks,
                            Side::Sell,
                        ) + seq![
                            BookEffectV::CacheSetBook { total },
                            BookEffectV::StoreSetBookVolume { total },
                        ],
                    ),
                ),
                None => Err(ApplyError::VolumeOverflow),
            },
            None => Err(ApplyError::VolumeOverflow),
        }
    }
}

/// What one update entry does to a side: `add` and `modify` replace or
/// insert the order and move the volume by the new quantity less the stored
/// one; `delete` removes the order and its stored quantity; a `modify` or
/// `delete` of an unknown id, and an unknown event word, change nothing.
pub open spec fn spec_apply_update_order(
    os: Seq<OpenOrderV>,
    total: Dec,
    x: UpdateOrderV,
    side: Side,
) -> Option<(Seq<OpenOrderV>, Dec, Seq<BookEffectV>)> {
    let o = open_of_update(x);
    let found = orders_find(os, x.order_id);
    if x.event == "add"@ || x.event == "modify"@ {
        if x.event == "modify"@ && found is None {
            Some((os, total, Seq::empty()))
        } else {
            let t1 = match found {
                Some(i) => spec_dec_sub(total, os[i].qty),
                None => Some(total),
            };
            match t1 {
                Some(t1v) => match spec_dec_add(t1v, x.order_qty) {
                    Some(t2) => Some(
                        (
                            orders_upsert(os, o),
                            t2,
                            if x.event == "add"@ {
                                seq![
                                    BookEffectV::CacheSetOrder { side, order: o },
                                    BookEffectV::StoreCreateOpen { side, order: o },
                                ]
                            } else {
                                seq![
                                    BookEffectV::CacheSetOrder { side, order: o },
                                    BookEffectV::StoreCreateModified { side, order: o },
                                ]
                            },
                        ),
                    ),
                    None => None,
                },
                None => None,
            }
        }
    } else if x.event == "delete"@ {
        match found {
            Some(i) => match spec_dec_sub(total, os[i].qty) {
                Some(t1) => Some(
                    (
                        orders_remove(os, x.order_id),
                        t1,
                        seq![
                            BookEffectV::CacheDelOrder { side, order_id: x.order_id },
                            BookEffectV::StoreDeleteOpen { side, order_id: x.order_id },
                            BookEffectV::StoreDeleteModified { side, order_id: x.order_id },
                        ],
                    ),
                ),
                None => None,
            },
            None => Some((os, total, Seq::empty())),
        }
    } else {
        Some((os, total, Seq::empty()))
    }
}

/// One side of an update, entry by entry in event order.
pub open spec fn spec_apply_update_side(
    xs: Seq<UpdateOrderV>,
    os: Seq<OpenOrderV>,
    total: Dec,
    effects: Seq<BookEffectV>,
    side: Side,
) -> Option<(Seq<OpenOrderV>, Dec, Seq<BookEffectV>)>
    decreases xs.len(),
{
    if xs.len() == 0 {
        Some((os, total, effects))
    } else {
        match spec_apply_update_order(os, total, xs[0], side) {
            Some(step) => spec_apply_update_side(
                xs.drop_first(),
                step.0,
                step.1,
                effects + step.2,
                side,
            ),
            None => None,
        }
    }
}

/// The views of a vector of orders.
pub open spec fn vorders(s: Seq<OpenOrder>) -> Seq<OpenOrderV> {
    Seq::new(s.len(), |i: int| s[i]@)
}

/// The views of a vector of effects.
pub open spec fn veffects(s: Seq<BookEffect>) -> Seq<BookEffectV> {
    Seq::new(s.len(), |i: int| s[i]@)
}

/// A forward scan that hits the first match finds what `orders_find` finds.
proof fn lemma_find_first(os: Seq<OpenOrderV>, id: Seq<char>, ix: int)
    requires
        0 <= ix < os.len(),
        os[ix].order_id == id,
        forall|k: int| 0 <= k < ix ==> os[k].order_id != id,
    ensures
        orders_find(os, id) == Some(ix),
    decreases os.len(),
{
    if ix > 0 {
        let t = os.drop_first();
        assert(forall|k: int| 0 <= k < t.len() ==> t[k] == os[k + 1]);
        lemma_find_first(t, id, ix - 1);
    }
}

#[verifier::loop_isolation(false)]
fn find_order(os: &Vec<OpenOrder>, id: &String) -> (r: Option<usize>)
    ensures
        match r {
            Some(ix) => ix < os@.len() && orders_find(vorders(os@), id@) == Some(ix as int),
            None => orders_find(vorders(os@), id@) is None,
        },
{
    let mut i: usize = 0;
    while i < os.len()
        invariant
            i <= os@.len(),
            forall|k: int| 0 <= k < i ==> vorders(os@)[k].order_id != id@,
        decreases os@.len() - i,
    {
        if os[i].order_id == *id {
            proof {
                lemma_find_first(vorders(os@), id@, i as int);
            }
            return Some(i);
        }
        i += 1;
    }
    proof {
        lemma_orders_find_valid(vorders(os@), id@);
        if orders_find(vorders(os@), id@) is Some {
            let ix = orders_find(vorders(os@), id@)->0;
            assert(vorders(os@)[ix].order_id == id@);
        }
    }
    None
}

/// Removes the order with this id, handing it back, as `orders_remove` says.
fn remove_order(os: &mut Vec<OpenOrder>, id: &String) -> (r: Option<OpenOrder>)
    ensures
        vorders(final(os)@) == orders_remove(vorders(old(os)@), id@),
        match r {
            Some(o) => orders_find(vorders(old(os)@), id@) is Some && o@ == vorders(
                old(os)@,
            )[orders_find(vorders(old(os)@), id@)->0],
            None => orders_find(vorders(old(os)@), id@) is None,
        },
{
    match find_order(os, id) {
        Some(ix) => {
            let o = os.remove(ix);
            proof {
                assert(vorders(os@) =~= vorders(old(os)@).remove(
                    orders_find(vorders(old(os)@), id@)->0,
                ));
            }
            Some(o)
        },
        None => {
            proof {
                assert(vorders(os@) =~= orders_remove(vorders(old(os)@), id@));
            }
            None
        },
    }
}

/// Replaces or appends the order under its id, as `orders_upsert` says.
fn upsert_order(os: &mut Vec<OpenOrder>, o: OpenOrder) -> (removed: Option<OpenOrder>)
    ensures
        vorders(final(os)@) == orders_upsert(vorders(old(os)@), o@),
        match removed {
            Some(x) => orders_find(vorders(old(os)@), o@.order_id) is Some && x@ == vorders(
                old(os)@,
            )[orders_find(vorders(old(os)@), o@.order_id)->0],
            None => orders_find(vorders(old(os)@), o@.order_id) is None,
        },
{
    let removed = remove_order(os, &o.order_id);
    let ghost mid = vorders(os@);
    os.push(o);
    proof {
        assert(vorders(os@) =~= mid.push(o@));
    }
    removed
}

/// Adds the open quantities to `acc`, exactly as `sum_qtys_dec` says.
#[verifier::loop_isolation(false)]
fn sum_qtys(os: &Vec<OpenOrder>, acc: Dec) -> (r: Option<Dec>)
    requires
        dec_wf(acc),
        orders_wf(vorders(os@)),
    ensures
        r == sum_qtys_dec(vorders(os@), acc),
        r is Some ==> dec_wf(r->0),
{
    let ghost whole = vorders(os@);
    proof {
        assert(whole.subrange(0, whole.len() as int) =~= whole);
    }
    let mut cur = acc;
    let mut i: usize = 0;
    while i < os.len()
        invariant
            i <= os@.len(),
            dec_wf(cur),
            sum_qtys_dec(whole, acc) == sum_qtys_dec(whole.subrange(i as int, whole.len() as int), cur),
        decreases os@.len() - i,
    {
        let ghost suffix = whole.subrange(i as int, whole.len() as int);
        proof {
            assert(suffix[0] == whole[i as int]);
            assert(orders_wf(vorders(os@)));
            assert(0 <= i < vorders(os@).len());
            assert(dec_wf(vorders(os@)[i as int].price));
            assert(whole[i as int].qty == os@[i as int]@.qty);
            assert(dec_wf(whole[i as int].qty));
        }
        match dec_add(cur, os[i].qty) {
            Some(a) => {
                proof {
                    assert(suffix.drop_first() =~= whole.subrange(i as int + 1, whole.len() as int));
                }
                cur = a;
            },
            None => {
                return None;
            },
        }
        i += 1;
    }
    proof {
        assert(whole.subrange(os@.len() as int, whole.len() as int).len() == 0);
    }
    Some(cur)
}

/// The views of a vector of update entries.
pub open spec fn vupdates(s: Seq<UpdateOrder>) -> Seq<UpdateOrderV> {
    Seq::new(s.len(), |i: int| s[i]@)
}

/// The views of a vector of snapshot entries.
pub open spec fn vsnaps(s: Seq<SnapshotOrder>) -> Seq<SnapshotOrderV> {
    Seq::new(s.len(), |i: int| s[i]@)
}

/// What applying an update yields: outside the `level3` channel or with no
/// data the event is a no-op; otherwise the first data element's bids and
/// asks are applied in order, a total that came out negative is clamped to
/// zero, and the new total is written last.
pub open spec fn spec_process_update(b: BookStateV, ev: Level3UpdateV) -> Result<
    (BookStateV, Seq<BookEffectV>),
    ApplyError,
> {
    if ev.channel != "level3"@ {
        Ok((b, Seq::empty()))
    } else if ev.data.len() == 0 {
        Ok((b, Seq::empty()))
    } else {
        let d = ev.data[0];
        match spec_apply_update_side(d.bids, b.bids, b.total_volume, Seq::empty(), Side::Buy) {
            Some(bs) => match spec_apply_update_side(d.asks, b.asks, bs.1, bs.2, Side::Sell) {
                Some(ar) => {
                    let total = if ar.1.units < 0 {
                        dec_zero()
                    } else {
                        ar.1
                    };
                    Ok(
                        (
                            BookStateV { bids: bs.0, asks: ar.0, total_volume: total },
                            ar.2 + seq![
                                BookEffectV::CacheSetBook { total },
                                BookEffectV::StoreSetBookVolume { total },
                            ],
                        ),
                    )
                },
                None => Err(ApplyError::VolumeOverflow),
            },
            None => Err(ApplyError::VolumeOverflow),
        }
    }
}

/// Applies one update entry, exactly as [`spec_apply_update_order`] says,
/// appending its effects.
#[verifier::loop_isolation(false)]
fn apply_update_order(
    os: &mut Vec<OpenOrder>,
    total: Dec,
    x: &UpdateOrder,
    side: Side,
    effects: &mut Vec<BookEffect>,
) -> (r: Option<Dec>)
    requires
        orders_wf(vorders(old(os)@)),
        dec_wf(total),
        dec_wf(x.limit_price),
        dec_wf(x.order_qty),
    ensures
        match spec_apply_update_order(vorders(old(os)@), total, x@, side) {
            Some(step) => r is Some && vorders(final(os)@) == step.0 && r->0 == step.1 && veffects(
                final(effects)@,
            ) == veffects(old(effects)@) + step.2 && dec_wf(step.1) && orders_wf(step.0),
            None => r is None,
        },
{
    let ghost os0 = vorders(old(os)@);
    let is_add = str_eq(x.event.as_str(), "add");
    let is_modify = str_eq(x.event.as_str(), "modify");
    if is_add || is_modify {
        let found = find_order(os, &x.order_id);
        if is_modify && found.is_none() {
            proof {
                assert(veffects(effects@) =~= veffects(old(effects)@) + Seq::<
                    BookEffectV,
                >::empty());
            }
            return Some(total);
        }
        let t1 = match found {
            Some(ix) => {
                proof {
                    lemma_orders_find_valid(os0, x.order_id@);
                    assert(orders_wf(os0));
                    assert(0 <= ix < os0.len());
                    assert(dec_wf(os0[ix as int].price));
                    assert(dec_wf(os0[ix as int].qty));
                    assert(vorders(os@)[ix as int] == os0[ix as int]);
                }
                match dec_sub(total, os[ix].qty) {
                    Some(t) => t,
                    None => {
                        return None;
                    },
                }
            },
            None => total,
        };
        let t2 = match dec_add(t1, x.order_qty) {
            Some(t) => t,
            None => {
                return None;
            },
        };
        let o = OpenOrder { order_id: x.order_id.clone(), price: x.limit_price, qty: x.order_qty };
        let o2 = OpenOrder { order_id: x.order_id.clone(), price: x.limit_price, qty: x.order_qty };
        let o3 = OpenOrder { order_id: x.order_id.clone(), price: x.limit_price, qty: x.order_qty };
        proof {
            lemma_orders_wf_upsert(os0, o@);
        }
        let ghost e0 = veffects(effects@);
        let _ = upsert_order(os, o);
        effects.push(BookEffect::CacheSetOrder { side, order: o2 });
        if is_add {
            effects.push(BookEffect::StoreCreateOpen { side, order: o3 });
        } else {
            effects.push(BookEffect::StoreCreateModified { side, order: o3 });
        }
        proof {
            let step = spec_apply_update_order(os0, total, x@, side)->0;
            assert(veffects(effects@) =~= e0 + step.2);
        }
        Some(t2)
    } else if str_eq(x.event.as_str(), "delete") {
        let ghost e0 = veffects(effects@);
        match remove_order(os, &x.order_id) {
            Some(removed) => {
                proof {
                    lemma_orders_find_valid(os0, x.order_id@);
                    let i = orders_find(os0, x.order_id@)->0;
                    assert(orders_wf(os0));
                    assert(0 <= i < os0.len());
                    assert(dec_wf(os0[i].price));
                    assert(dec_wf(os0[i].qty));
                    assert(dec_wf(removed@.qty));
                    lemma_orders_wf_remove(os0, x.order_id@);
                }
                let t1 = match dec_sub(total, removed.qty) {
                    Some(t) => t,
                    None => {
                        return None;
                    },
                };
                effects.push(
                    BookEffect::CacheDelOrder { side, order_id: x.order_id.clone() },
                );
                effects.push(
                    BookEffect::StoreDeleteOpen { side, order_id: x.order_id.clone() },
                );
                effects.push(
                    BookEffect::StoreDeleteModified { side, order_id: x.order_id.clone() },
                );
                proof {
                    let step = spec_apply_update_order(os0, total, x@, side)->0;
                    assert(veffects(effects@) =~= e0 + step.2);
                }
                Some(t1)
            },
            None => {
                proof {
                    assert(veffects(effects@) =~= e0 + Seq::<BookEffectV>::empty());
                }
                Some(total)
            },
        }
    } else {
        proof {
            assert(veffects(effects@) =~= veffects(old(effects)@) + Seq::<BookEffectV>::empty());
        }
        Some(total)
    }
}

/// Applies one side of an update entry by entry, exactly as
/// [`spec_apply_update_side`] says.
#[verifier::loop_isolation(false)]
fn apply_update_side(
    os: &mut Vec<OpenOrder>,
    total: Dec,
    xs: &Vec<UpdateOrder>,
    side: Side,
    effects: &mut Vec<BookEffect>,
) -> (r: Option<Dec>)
    requires
        orders_wf(vorders(old(os)@)),
        dec_wf(total),
        update_orders_wf(xs@),
    ensures
        match spec_apply_update_side(
            vupdates(xs@),
            vorders(old(os)@),
            total,
            veffects(old(effects)@),
            side,
        ) {
            Some(res) => r is Some && vorders(final(os)@) == res.0 && r->0 == res.1 && veffects(
                final(effects)@,
            ) == res.2 && dec_wf(res.1) && orders_wf(res.0),
            None => r is None,
        },
{
    let ghost whole = vupdates(xs@);
    let ghost os0 = vorders(old(os)@);
    let ghost e0 = veffects(old(effects)@);
    proof {
        assert(whole.subrange(0, whole.len() as int) =~= whole);
    }
    let mut cur = total;
    let mut i: usize = 0;
    while i < xs.len()
        invariant
            i <= xs@.len(),
            dec_wf(cur),
            orders_wf(vorders(os@)),
            spec_apply_update_side(whole, os0, total, e0, side) == spec_apply_update_side(
                whole.subrange(i as int, whole.len() as int),
                vorders(os@),
                cur,
                veffects(effects@),
                side,
            ),
        decreases xs@.len() - i,
    {
        let ghost suffix = whole.subrange(i as int, whole.len() as int);
        proof {
            assert(suffix[0] == whole[i as int]);
            assert(whole[i as int] == xs@[i as int]@);
            assert(dec_wf(xs@[i as int].limit_price) && dec_wf(xs@[i as int].order_qty));
        }
        match apply_update_order(os, cur, &xs[i], side, effects) {
            Some(t) => {
                proof {
                    assert(suffix.drop_first() =~= whole.subrange(i as int + 1, whole.len() as int));
                }
                cur = t;
            },
            None => {
                return None;
            },
        }
        i += 1;
    }
    proof {
        assert(whole.subrange(xs@.len() as int, whole.len() as int).len() == 0);
    }
    Some(cur)
}

impl Level3Update {
    /// Applies this update to the book, exactly as [`spec_process_update`]
    /// says, returning the new state and the writes to perform.
    pub fn process_update(&self, book: BookState) -> (r: Result<
        (BookState, Vec<BookEffect>),
        ApplyError,
    >)
        requires
            l3_update_wf(*self),
            book_wf(book@),
        ensures
            match r {
                Ok(p) => spec_process_update(book@, self@) == Ok::<
                    (BookStateV, Seq<BookEffectV>),
                    ApplyError,
                >((p.0@, veffects(p.1@))) && book_wf(p.0@),
                Err(e) => spec_process_update(book@, self@) == Err::<
                    (BookStateV, Seq<BookEffectV>),
                    ApplyError,
                >(e),
            },
    {
        let ghost b0 = book@;
        if !str_eq(self.channel.as_str(), "level3") {
            let out: Vec<BookEffect> = Vec::new();
            proof {
                assert(veffects(out@) =~= Seq::<BookEffectV>::empty());
            }
            return Ok((book, out));
        }
        if self.data.len() == 0 {
            let out: Vec<BookEffect> = Vec::new();
            proof {
                assert(self@.data.len() == 0);
                assert(veffects(out@) =~= Seq::<BookEffectV>::empty());
            }
            return Ok((book, out));
        }
        proof {
            assert(self@.data[0] == self.data@[0]@);
            assert(update_data_wf(self.data@[0]));
        }
        let BookState { mut bids, mut asks, total_volume } = book;
        proof {
            assert(vorders(bids@) =~= b0.bids);
            assert(vorders(asks@) =~= b0.asks);
            assert(vupdates(self.data[0].bids@) =~= self@.data[0].bids);
            assert(vupdates(self.data[0].asks@) =~= self@.data[0].asks);
        }
        let mut effects: Vec<BookEffect> = Vec::new();
        proof {
            assert(veffects(effects@) =~= Seq::<BookEffectV>::empty());
        }
        let t1 = match apply_update_side(
            &mut bids,
            total_volume,
            &self.data[0].bids,
            Side::Buy,
            &mut effects,
        ) {
            Some(t) => t,
            None => {
                return Err(ApplyError::VolumeOverflow);
            },
        };
        let t2 = match apply_update_side(
            &mut asks,
            t1,
            &self.data[0].asks,
            Side::Sell,
            &mut effects,
        ) {
            Some(t) => t,
            None => {
                return Err(ApplyError::VolumeOverflow);
            },
        };
        let total = if crate::decimal::dec_is_negative(t2) {
            crate::decimal::dec_new_zero()
        } else {
            t2
        };
        let ghost e2 = veffects(effects@);
        effects.push(BookEffect::CacheSetBook { total });
        effects.push(BookEffect::StoreSetBookVolume { total });
        let out = BookState { bids, asks, total_volume: total };
        proof {
            assert(veffects(effects@) =~= e2 + seq![
                BookEffectV::CacheSetBook { total },
                BookEffectV::StoreSetBookVolume { total },
            ]);
            assert(out@.bids =~= vorders(out.bids@));
            assert(out@.asks =~= vorders(out.asks@));
        }
        Ok((out, effects))
    }
}

impl Level3Snapshot {
    /// Applies this snapshot to the book, exactly as
    /// [`spec_process_snapshot`] says: the snapshot replaces the book, the
    /// superseded cache keys are removed, and the new total is the sum of
    /// the snapshot's quantities.
    #[verifier::loop_isolation(false)]
    #[verifier::rlimit(60)]
    pub fn process_snapshot(&self, book: BookState) -> (r: Result<
        (BookState, Vec<BookEffect>),
        ApplyError,
    >)
        requires
            l3_snapshot_wf(*self),
            book_wf(book@),
        ensures
            match r {
                Ok(p) => spec_process_snapshot(book@, self@) == Ok::<
                    (BookStateV, Seq<BookEffectV>),
                    ApplyError,
                >((p.0@, veffects(p.1@))) && book_wf(p.0@),
                Err(e) => spec_process_snapshot(book@, self@) == Err::<
                    (BookStateV, Seq<BookEffectV>),
                    ApplyError,
                >(e),
            },
    {
        let ghost b0 = book@;
        if !str_eq(self.channel.as_str(), "level3") {
            let out: Vec<BookEffect> = Vec::new();
            proof {
                assert(veffects(out@) =~= Seq::<BookEffectV>::empty());
            }
            return Ok((book, out));
        }
        if self.data.len() == 0 {
            let out: Vec<BookEffect> = Vec::new();
            proof {
                assert(self@.data.len() == 0);
                assert(veffects(out@) =~= Seq::<BookEffectV>::empty());
            }
            return Ok((book, out));
        }
        proof {
            assert(self@.data[0] == self.data@[0]@);
            assert(snapshot_data_wf(self.data@[0]));
            assert(vsnaps(self.data[0].bids@) =~= self@.data[0].bids);
            assert(vsnaps(self.data[0].asks@) =~= self@.data[0].asks);
            assert(vorders(book.bids@) =~= b0.bids);
            assert(vorders(book.asks@) =~= b0.asks);
        }
        let mut effects: Vec<BookEffect> = Vec::new();
        proof {
            assert(veffects(effects@) =~= Seq::<BookEffectV>::empty());
        }

        // remove the superseded cache keys of both sides
        let ghost fb = flush_effects(b0.bids, Side::Buy);
        proof {
            assert(vorders(book.bids@).subrange(0, book.bids@.len() as int) =~= vorders(
                book.bids@,
            ));
            assert(fb == flush_effects(vorders(book.bids@), Side::Buy));
            assert(veffects(effects@) + fb =~= fb);
        }
        let mut i: usize = 0;
        while i < book.bids.len()
            invariant
                i <= book.bids@.len(),
                fb == veffects(effects@) + flush_effects(
                    vorders(book.bids@).subrange(i as int, book.bids@.len() as int),
                    Side::Buy,
                ),
            decreases book.bids@.len() - i,
        {
            let ghost suffix = vorders(book.bids@).subrange(i as int, book.bids@.len() as int);
            let ghost e0 = veffects(effects@);
            effects.push(
                BookEffect::CacheDelOrder {
                    side: Side::Buy,
                    order_id: book.bids[i].order_id.clone(),
                },
            );
            proof {
                assert(suffix[0] == vorders(book.bids@)[i as int]);
                assert(suffix.drop_first() =~= vorders(book.bids@).subrange(
                    i as int + 1,
                    book.bids@.len() as int,
                ));
                assert(veffects(effects@) =~= e0 + seq![
                    BookEffectV::CacheDelOrder { side: Side::Buy, order_id: suffix[0].order_id },
                ]);
                assert(e0 + (seq![
                    BookEffectV::CacheDelOrder { side: Side::Buy, order_id: suffix[0].order_id },
                ] + flush_effects(suffix.drop_first(), Side::Buy)) =~= (e0 + seq![
                    BookEffectV::CacheDelOrder { side: Side::Buy, order_id: suffix[0].order_id },
                ]) + flush_effects(suffix.drop_first(), Side::Buy));
            }
            i += 1;
        }
        proof {
            assert(vorders(book.bids@).subrange(
                book.bids@.len() as int,
                book.bids@.len() as int,
            ).len() == 0);
            assert(fb =~= veffects(effects@) + Seq::<BookEffectV>::empty());
            assert(fb =~= veffects(effects@));
        }
        let ghost fa = flush_effects(b0.asks, Side::Sell);
        proof {
            assert(vorders(book.asks@).subrange(0, book.asks@.len() as int) =~= vorders(
                book.asks@,
            ));
            assert(fa == flush_effects(vorders(book.asks@), Side::Sell));
            assert(veffects(effects@) + fa =~= fb + fa);
        }
        let mut i2: usize = 0;
        while i2 < book.asks.len()
            invariant
                i2 <= book.asks@.len(),
                fb + fa == veffects(effects@) + flush_effects(
                    vorders(book.asks@).subrange(i2 as int, book.asks@.len() as int),
                    Side::Sell,
                ),
            decreases book.asks@.len() - i2,
        {
            let ghost suffix = vorders(book.asks@).subrange(i2 as int, book.asks@.len() as int);
            let ghost e0 = veffects(effects@);
            effects.push(
                BookEffect::CacheDelOrder {
                    side: Side::Sell,
                    order_id: book.asks[i2].order_id.clone(),
                },
            );
            proof {
                assert(suffix[0] == vorders(book.asks@)[i2 as int]);
                assert(suffix.drop_first() =~= vorders(book.asks@).subrange(
                    i2 as int + 1,
                    book.asks@.len() as int,
                ));
                assert(veffects(effects@) =~= e0 + seq![
                    BookEffectV::CacheDelOrder { side: Side::Sell, order_id: suffix[0].order_id },
                ]);
                assert(e0 + (seq![
                    BookEffectV::CacheDelOrder { side: Side::Sell, order_id: suffix[0].order_id },
                ] + flush_effects(suffix.drop_first(), Side::Sell)) =~= (e0 + seq![
                    BookEffectV::CacheDelOrder { side: Side::Sell, order_id: suffix[0].order_id },
                ]) + flush_effects(suffix.drop_first(), Side::Sell));
            }
            i2 += 1;
        }
        proof {
            assert(vorders(book.asks@).subrange(
                book.asks@.len() as int,
                book.asks@.len() as int,
            ).len() == 0);
            assert(fb + fa =~= veffects(effects@) + Seq::<BookEffectV>::empty());
            assert(fb + fa =~= veffects(effects@));
        }

        // build the new sides, emitting their writes
        let bids = snapshot_build_side(&self.data[0].bids, Side::Buy, &mut effects);
        let ghost sb = snapshot_side_effects(self@.data[0].bids, Side::Buy);
        let asks = snapshot_build_side(&self.data[0].asks, Side::Sell, &mut effects);
        let ghost sa = snapshot_side_effects(self@.data[0].asks, Side::Sell);
        proof {
            assert(veffects(effects@) =~= ((fb + fa) + sb) + sa);
        }

        let total_b = match sum_qtys(&bids, crate::decimal::dec_new_zero()) {
            Some(t) => t,
            None => {
                return Err(ApplyError::VolumeOverflow);
            },
        };
        let total = match sum_qtys(&asks, total_b) {
            Some(t) => t,
            None => {
                return Err(ApplyError::VolumeOverflow);
            },
        };
        let ghost e3 = veffects(effects@);
        effects.push(BookEffect::CacheSetBook { total });
        effects.push(BookEffect::StoreSetBookVolume { total });
        let out = BookState { bids, asks, total_volume: total };
        proof {
            assert(veffects(effects@) =~= e3 + seq![
                BookEffectV::CacheSetBook { total },
                BookEffectV::StoreSetBookVolume { total },
            ]);
            assert(out@.bids =~= vorders(out.bids@));
            assert(out@.asks =~= vorders(out.asks@));
            assert(veffects(effects@) =~= (fb + fa + sb + sa) + seq![
                BookEffectV::CacheSetBook { total },
                BookEffectV::StoreSetBookVolume { total },
            ]);
        }
        Ok((out, effects))
    }
}

/// Builds one side of a snapshot, upserting the entries in order and
/// appending their cache and store writes.
#[verifier::loop_isolation(false)]
fn snapshot_build_side(xs: &Vec<SnapshotOrder>, side: Side, effects: &mut Vec<BookEffect>) -> (r:
    Vec<OpenOrder>)
    requires
        snapshot_orders_wf(xs@),
    ensures
        vorders(r@) == snapshot_side(vsnaps(xs@), Seq::empty()),
        orders_wf(vorders(r@)),
        veffects(final(effects)@) == veffects(old(effects)@) + snapshot_side_effects(
            vsnaps(xs@),
            side,
        ),
{
    let ghost whole = vsnaps(xs@);
    let ghost e0 = veffects(old(effects)@);
    let mut out: Vec<OpenOrder> = Vec::new();
    proof {
        assert(whole.subrange(0, whole.len() as int) =~= whole);
        assert(vorders(out@) =~= Seq::<OpenOrderV>::empty());
        assert(veffects(effects@) =~= e0 + Seq::<BookEffectV>::empty());
    }
    let ghost mut done: Seq<BookEffectV> = Seq::empty();
    let mut i: usize = 0;
    while i < xs.len()
        invariant
            i <= xs@.len(),
            orders_wf(vorders(out@)),
            snapshot_side(whole, Seq::empty()) == snapshot_side(
                whole.subrange(i as int, whole.len() as int),
                vorders(out@),
            ),
            snapshot_side_effects(whole, side) == done + snapshot_side_effects(
                whole.subrange(i as int, whole.len() as int),
                side,
            ),
            veffects(effects@) == e0 + done,
        decreases xs@.len() - i,
    {
        let ghost suffix = whole.subrange(i as int, whole.len() as int);
        proof {
            assert(suffix[0] == whole[i as int]);
            assert(whole[i as int] == xs@[i as int]@);
            assert(snapshot_orders_wf(xs@));
            assert(dec_wf(xs@[i as int].limit_price) && dec_wf(xs@[i as int].order_qty));
        }
        let o = OpenOrder {
            order_id: xs[i].order_id.clone(),
            price: xs[i].limit_price,
            qty: xs[i].order_qty,
        };
        let o2 = OpenOrder {
            order_id: xs[i].order_id.clone(),
            price: xs[i].limit_price,
            qty: xs[i].order_qty,
        };
        let o3 = OpenOrder {
            order_id: xs[i].order_id.clone(),
            price: xs[i].limit_price,
            qty: xs[i].order_qty,
        };
        proof {
            lemma_orders_wf_upsert(vorders(out@), o@);
            assert(o@ == open_of_snapshot(suffix[0]));
        }
        let _ = upsert_order(&mut out, o);
        effects.push(BookEffect::CacheSetOrder { side, order: o2 });
        effects.push(BookEffect::StoreCreateOpen { side, order: o3 });
        proof {
            let step: Seq<BookEffectV> = seq![
                BookEffectV::CacheSetOrder { side, order: open_of_snapshot(suffix[0]) },
                BookEffectV::StoreCreateOpen { side, order: open_of_snapshot(suffix[0]) },
            ];
            assert(veffects(effects@) =~= (e0 + done) + step);
            assert((e0 + done) + step =~= e0 + (done + step));
            assert(suffix.drop_first() =~= whole.subrange(i as int + 1, whole.len() as int));
            assert(done + (step + snapshot_side_effects(suffix.drop_first(), side)) =~= (done
                + step) + snapshot_side_effects(suffix.drop_first(), side));
            done = done + step;
        }
        i += 1;
    }
    proof {
        assert(whole.subrange(xs@.len() as int, whole.len() as int).len() == 0);
        assert(snapshot_side_effects(whole, side) =~= done + Seq::<BookEffectV>::empty());
        assert(snapshot_side_effects(whole, side) =~= done);
    }
    out
}

// ---------------------------------------------------------------------
// The balance law.

pub open spec fn sorders_v_wf(xs: Seq<SnapshotOrderV>) -> bool {
    forall|i: int|
        0 <= i < xs.len() ==> dec_wf(#[trigger] xs[i].limit_price) && dec_wf(xs[i].order_qty)
}

pub open spec fn sorders_v_nonneg(xs: Seq<SnapshotOrderV>) -> bool {
    forall|i: int| 0 <= i < xs.len() ==> (#[trigger] xs[i].order_qty).units >= 0
}

pub open spec fn uorders_v_wf(xs: Seq<UpdateOrderV>) -> bool {
    forall|i: int|
        0 <= i < xs.len() ==> dec_wf(#[trigger] xs[i].limit_price) && dec_wf(xs[i].order_qty)
}

pub open spec fn uorders_v_nonneg(xs: Seq<UpdateOrderV>) -> bool {
    forall|i: int| 0 <= i < xs.len() ==> (#[trigger] xs[i].order_qty).units >= 0
}

pub open spec fn snapshot_v_wf(ev: Level3SnapshotV) -> bool {
    forall|i: int|
        0 <= i < ev.data.len() ==> sorders_v_wf((#[trigger] ev.data[i]).bids) && sorders_v_wf(
            ev.data[i].asks,
        )
}

pub open spec fn snapshot_v_nonneg(ev: Level3SnapshotV) -> bool {
    forall|i: int|
        0 <= i < ev.data.len() ==> sorders_v_nonneg((#[trigger] ev.data[i]).bids)
            && sorders_v_nonneg(ev.data[i].asks)
}

pub open spec fn update_v_wf(ev: Level3UpdateV) -> bool {
    forall|i: int|
        0 <= i < ev.data.len() ==> uorders_v_wf((#[trigger] ev.data[i]).bids) && uorders_v_wf(
            ev.data[i].asks,
        )
}

pub open spec fn update_v_nonneg(ev: Level3UpdateV) -> bool {
    forall|i: int|
        0 <= i < ev.data.len() ==> uorders_v_nonneg((#[trigger] ev.data[i]).bids)
            && uorders_v_nonneg(ev.data[i].asks)
}


proof fn lemma_orders_wf_drop_first(os: Seq<OpenOrderV>)
    requires
        os.len() > 0,
        orders_wf(os),
    ensures
        orders_wf(os.drop_first()),
        orders_nonneg(os) ==> orders_nonneg(os.drop_first()),
{
    let t = os.drop_first();
    assert forall|i: int| 0 <= i < t.len() implies dec_wf(#[trigger] t[i].price) && dec_wf(
        t[i].qty,
    ) by {
        assert(t[i] == os[i + 1]);
        lemma_orders_wf_at(os, i + 1);
    }
    assert forall|a: int, b: int| 0 <= a < b < t.len() implies (#[trigger] t[a].order_id) != (
    #[trigger] t[b].order_id) by {
        assert(t[a] == os[a + 1] && t[b] == os[b + 1]);
        assert(os[a + 1].order_id != os[b + 1].order_id);
    }
    if orders_nonneg(os) {
        assert forall|i: int| 0 <= i < t.len() implies (#[trigger] t[i].qty).units >= 0 by {
            assert(t[i] == os[i + 1]);
            assert(os[i + 1].qty.units >= 0);
        }
    }
}

proof fn lemma_uorders_v_wf_drop_first(xs: Seq<UpdateOrderV>)
    requires
        xs.len() > 0,
        uorders_v_wf(xs),
    ensures
        uorders_v_wf(xs.drop_first()),
        uorders_v_nonneg(xs) ==> uorders_v_nonneg(xs.drop_first()),
{
    let t = xs.drop_first();
    assert forall|i: int| 0 <= i < t.len() implies dec_wf(#[trigger] t[i].limit_price) && dec_wf(
        t[i].order_qty,
    ) by {
        assert(t[i] == xs[i + 1]);
        assert(dec_wf(xs[i + 1].limit_price));
        assert(dec_wf(xs[i + 1].order_qty));
    }
    if uorders_v_nonneg(xs) {
        assert forall|i: int| 0 <= i < t.len() implies (#[trigger] t[i].order_qty).units >= 0 by {
            assert(t[i] == xs[i + 1]);
            assert(xs[i + 1].order_qty.units >= 0);
        }
    }
}

proof fn lemma_sorders_v_wf_drop_first(xs: Seq<SnapshotOrderV>)
    requires
        xs.len() > 0,
        sorders_v_wf(xs),
    ensures
        sorders_v_wf(xs.drop_first()),
        sorders_v_nonneg(xs) ==> sorders_v_nonneg(xs.drop_first()),
{
    let t = xs.drop_first();
    assert forall|i: int| 0 <= i < t.len() implies dec_wf(#[trigger] t[i].limit_price) && dec_wf(
        t[i].order_qty,
    ) by {
        assert(t[i] == xs[i + 1]);
        assert(dec_wf(xs[i + 1].limit_price));
        assert(dec_wf(xs[i + 1].order_qty));
    }
    if sorders_v_nonneg(xs) {
        assert forall|i: int| 0 <= i < t.len() implies (#[trigger] t[i].order_qty).units >= 0 by {
            assert(t[i] == xs[i + 1]);
            assert(xs[i + 1].order_qty.units >= 0);
        }
    }
}

/// A non-negative numerator keeps its sign over the common denominator.
proof fn lemma_val18_sign(d: Dec)
    requires
        dec_wf(d),
    ensures
        (val18(d) >= 0) == (d.units >= 0),
{
    let p = crate::decimal::pow10((crate::MAX_SCALE - d.scale) as nat);
    crate::decimal::lemma_pow10_pos((crate::MAX_SCALE - d.scale) as nat);
    if d.units >= 0 {
        lemma_mul_nonnegative(d.units as int, p);
    } else {
        lemma_mul_unary_negation(d.units as int, p);
        lemma_mul_strictly_positive(-(d.units as int), p);
    }
}

/// Summing well-formed quantities adds their numerators to the start value.
proof fn lemma_sum_qtys_val18(os: Seq<OpenOrderV>, acc: Dec)
    requires
        dec_wf(acc),
        orders_wf(os),
    ensures
        match sum_qtys_dec(os, acc) {
            Some(r) => dec_wf(r) && val18(r) == val18(acc) + orders_sum(os),
            None => true,
        },
    decreases os.len(),
{
    if os.len() > 0 {
        lemma_orders_wf_at(os, 0);
        match spec_dec_add(acc, os[0].qty) {
            Some(a) => {
                lemma_dec_add_val18(acc, os[0].qty, a);
                lemma_orders_wf_drop_first(os);
                lemma_sum_qtys_val18(os.drop_first(), a);
            },
            None => {},
        }
    }
}

/// A snapshot side is well-formed and sums the event's quantities.
proof fn lemma_snapshot_side_wf(xs: Seq<SnapshotOrderV>, acc: Seq<OpenOrderV>)
    requires
        sorders_v_wf(xs),
        orders_wf(acc),
    ensures
        orders_wf(snapshot_side(xs, acc)),
        sorders_v_nonneg(xs) && orders_nonneg(acc) ==> orders_nonneg(snapshot_side(xs, acc)),
    decreases xs.len(),
{
    if xs.len() > 0 {
        assert(dec_wf(xs[0].limit_price) && dec_wf(xs[0].order_qty));
        lemma_orders_wf_upsert(acc, open_of_snapshot(xs[0]));
        lemma_sorders_v_wf_drop_first(xs);
        if sorders_v_nonneg(xs) && orders_nonneg(acc) {
            assert(xs[0].order_qty.units >= 0);
        }
        lemma_snapshot_side_wf(xs.drop_first(), orders_upsert(acc, open_of_snapshot(xs[0])));
    }
}

/// A snapshot that applies leaves a well-formed, balanced book.
pub proof fn lemma_process_snapshot_balanced(b: BookStateV, ev: Level3SnapshotV)
    requires
        book_wf(b),
        book_balanced(b),
        book_nonneg(b),
        snapshot_v_wf(ev),
        snapshot_v_nonneg(ev),
    ensures
        match spec_process_snapshot(b, ev) {
            Ok(p) => book_wf(p.0) && book_balanced(p.0) && book_nonneg(p.0),
            Err(e) => true,
        },
{
    if ev.channel == "level3"@ && ev.data.len() > 0 {
        let d = ev.data[0];
        assert(sorders_v_wf(d.bids) && sorders_v_wf(d.asks));
        assert(sorders_v_nonneg(d.bids) && sorders_v_nonneg(d.asks));
        assert(orders_wf(Seq::<OpenOrderV>::empty()));
        assert(orders_nonneg(Seq::<OpenOrderV>::empty()));
        lemma_snapshot_side_wf(d.bids, Seq::empty());
        lemma_snapshot_side_wf(d.asks, Seq::empty());
        let bids = snapshot_side(d.bids, Seq::empty());
        let asks = snapshot_side(d.asks, Seq::empty());
        match sum_qtys_dec(bids, dec_zero()) {
            Some(sb) => {
                lemma_sum_qtys_val18(bids, dec_zero());
                assert(val18(dec_zero()) == 0) by {
                    lemma_mul_basics(crate::decimal::pow10((crate::MAX_SCALE) as nat));
                }
                match sum_qtys_dec(asks, sb) {
                    Some(total) => {
                        lemma_sum_qtys_val18(asks, sb);
                    },
                    None => {},
                }
            },
            None => {},
        }
    }
}

/// One update entry moves the total by exactly what it does to the side's
/// sum, and keeps the side well-formed.
proof fn lemma_apply_update_order_balance(
    os: Seq<OpenOrderV>,
    total: Dec,
    x: UpdateOrderV,
    side: Side,
)
    requires
        orders_wf(os),
        dec_wf(total),
        dec_wf(x.limit_price),
        dec_wf(x.order_qty),
    ensures
        match spec_apply_update_order(os, total, x, side) {
            Some(step) => orders_wf(step.0) && dec_wf(step.1) && val18(step.1) - val18(total)
                == orders_sum(step.0) - orders_sum(os) && (orders_nonneg(os)
                && x.order_qty.units >= 0 ==> orders_nonneg(step.0)),
            None => true,
        },
{
    let o = open_of_update(x);
    let found = orders_find(os, x.order_id);
    lemma_orders_find_valid(os, x.order_id);
    if x.event == "add"@ || x.event == "modify"@ {
        if !(x.event == "modify"@ && found is None) {
            match found {
                Some(i) => {
                    lemma_orders_wf_at(os, i);
                    match spec_dec_sub(total, os[i].qty) {
                        Some(t1) => {
                            lemma_dec_sub_val18(total, os[i].qty, t1);
                            match spec_dec_add(t1, x.order_qty) {
                                Some(t2) => {
                                    lemma_dec_add_val18(t1, x.order_qty, t2);
                                    lemma_orders_sum_upsert(os, o);
                                    lemma_orders_wf_upsert(os, o);
                                    assert(removed_qty(os, x.order_id) == val18(os[i].qty));
                                },
                                None => {},
                            }
                        },
                        None => {},
                    }
                },
                None => {
                    match spec_dec_add(total, x.order_qty) {
                        Some(t2) => {
                            lemma_dec_add_val18(total, x.order_qty, t2);
                            lemma_orders_sum_upsert(os, o);
                            lemma_orders_wf_upsert(os, o);
                            assert(removed_qty(os, x.order_id) == 0);
                        },
                        None => {},
                    }
                },
            }
        }
    } else if x.event == "delete"@ {
        match found {
            Some(i) => {
                lemma_orders_wf_at(os, i);
                match spec_dec_sub(total, os[i].qty) {
                    Some(t1) => {
                        lemma_dec_sub_val18(total, os[i].qty, t1);
                        lemma_orders_sum_remove_id(os, x.order_id);
                        lemma_orders_wf_remove(os, x.order_id);
                    },
                    None => {},
                }
            },
            None => {},
        }
    }
}

/// One side of an update moves the total by exactly what it does to the
/// side's sum.
proof fn lemma_apply_update_side_balance(
    xs: Seq<UpdateOrderV>,
    os: Seq<OpenOrderV>,
    total: Dec,
    effects: Seq<BookEffectV>,
    side: Side,
)
    requires
        orders_wf(os),
        dec_wf(total),
        uorders_v_wf(xs),
    ensures
        match spec_apply_update_side(xs, os, total, effects, side) {
            Some(res) => orders_wf(res.0) && dec_wf(res.1) && val18(res.1) - val18(total)
                == orders_sum(res.0) - orders_sum(os) && (orders_nonneg(os) && uorders_v_nonneg(
                xs,
            ) ==> orders_nonneg(res.0)),
            None => true,
        },
    decreases xs.len(),
{
    if xs.len() > 0 {
        assert(dec_wf(xs[0].limit_price) && dec_wf(xs[0].order_qty));
        lemma_apply_update_order_balance(os, total, xs[0], side);
        match spec_apply_update_order(os, total, xs[0], side) {
            Some(step) => {
                lemma_uorders_v_wf_drop_first(xs);
                lemma_apply_update_side_balance(
                    xs.drop_first(),
                    step.0,
                    step.1,
                    effects + step.2,
                    side,
                );
            },
            None => {},
        }
    }
}

/// An update that applies keeps the book well-formed and balanced; with
/// non-negative quantities the total never goes negative, so the clamp to
/// zero never fires.
pub proof fn lemma_process_update_balanced(b: BookStateV, ev: Level3UpdateV)
    requires
        book_wf(b),
        book_balanced(b),
        book_nonneg(b),
        update_v_wf(ev),
        update_v_nonneg(ev),
    ensures
        match spec_process_update(b, ev) {
            Ok(p) => book_wf(p.0) && book_balanced(p.0) && book_nonneg(p.0),
            Err(e) => true,
        },
{
    if ev.channel == "level3"@ && ev.data.len() > 0 {
        let d = ev.data[0];
        assert(uorders_v_wf(d.bids) && uorders_v_wf(d.asks));
        assert(uorders_v_nonneg(d.bids) && uorders_v_nonneg(d.asks));
        lemma_apply_update_side_balance(d.bids, b.bids, b.total_volume, Seq::empty(), Side::Buy);
        match spec_apply_update_side(d.bids, b.bids, b.total_volume, Seq::empty(), Side::Buy) {
            Some(bs) => {
                lemma_apply_update_side_balance(d.asks, b.asks, bs.1, bs.2, Side::Sell);
                match spec_apply_update_side(d.asks, b.asks, bs.1, bs.2, Side::Sell) {
                    Some(ar) => {
                        assert(val18(ar.1) == orders_sum(bs.0) + orders_sum(ar.0));
                        lemma_orders_sum_nonneg(bs.0);
                        lemma_orders_sum_nonneg(ar.0);
                        lemma_val18_sign(ar.1);
                        assert(ar.1.units >= 0);
                    },
                    None => {},
                }
            },
            None => {},
        }
    }
}

/// The sum of non-negative quantities is non-negative.
proof fn lemma_orders_sum_nonneg(os: Seq<OpenOrderV>)
    requires
        orders_wf(os),
        orders_nonneg(os),
    ensures
        orders_sum(os) >= 0,
    decreases os.len(),
{
    if os.len() > 0 {
        lemma_orders_wf_at(os, 0);
        assert(os[0].qty.units >= 0);
        lemma_val18_sign(os[0].qty);
        lemma_orders_wf_drop_first(os);
        lemma_orders_sum_nonneg(os.drop_first());
    }
}

/// A book event: one snapshot or one update, as classified off the wire.
pub enum BookEventV {
    Snapshot(Level3SnapshotV),
    Update(Level3UpdateV),
}

pub open spec fn event_v_wf(ev: BookEventV) -> bool {
    match ev {
        BookEventV::Snapshot(s) => snapshot_v_wf(s),
        BookEventV::Update(u) => update_v_wf(u),
    }
}

pub open spec fn event_v_nonneg(ev: BookEventV) -> bool {
    match ev {
        BookEventV::Snapshot(s) => snapshot_v_nonneg(s),
        BookEventV::Update(u) => update_v_nonneg(u),
    }
}

/// The book after a whole sequence of snapshot and update events.
pub open spec fn spec_apply_events(b: BookStateV, evs: Seq<BookEventV>) -> Result<
    BookStateV,
    ApplyError,
>
    decreases evs.len(),
{
    if evs.len() == 0 {
        Ok(b)
    } else {
        let step = match evs[0] {
            BookEventV::Snapshot(s) => spec_process_snapshot(b, s),
            BookEventV::Update(u) => spec_process_update(b, u),
        };
        match step {
            Ok(p) => spec_apply_events(p.0, evs.drop_first()),
            Err(e) => Err(e),
        }
    }
}

/// After any sequence of snapshot and update events with well-formed,
/// non-negative quantities, the cached `total_volume` equals the sum of the
/// quantities over all currently open orders on both sides.
pub proof fn lemma_total_volume_matches_open_orders(b: BookStateV, evs: Seq<BookEventV>)
    requires
        book_wf(b),
        book_balanced(b),
        book_nonneg(b),
        forall|i: int| 0 <= i < evs.len() ==> event_v_wf(#[trigger] evs[i]),
        forall|i: int| 0 <= i < evs.len() ==> event_v_nonneg(#[trigger] evs[i]),
    ensures
        match spec_apply_events(b, evs) {
            Ok(b2) => book_wf(b2) && book_balanced(b2) && book_nonneg(b2),
            Err(e) => true,
        },
    decreases evs.len(),
{
    if evs.len() > 0 {
        assert(event_v_wf(evs[0]) && event_v_nonneg(evs[0]));
        let step = match evs[0] {
            BookEventV::Snapshot(s) => spec_process_snapshot(b, s),
            BookEventV::Update(u) => spec_process_update(b, u),
        };
        match evs[0] {
            BookEventV::Snapshot(s) => {
                lemma_process_snapshot_balanced(b, s);
            },
            BookEventV::Update(u) => {
                lemma_process_update_balanced(b, u);
            },
        }
        match step {
            Ok(p) => {
                assert(forall|i: int|
                    0 <= i < evs.drop_first().len() ==> evs.drop_first()[i] == evs[i + 1]);
                assert forall|i: int| 0 <= i < evs.drop_first().len() implies event_v_wf(
                    #[trigger] evs.drop_first()[i],
                ) && event_v_nonneg(evs.drop_first()[i]) by {
                    assert(evs.drop_first()[i] == evs[i + 1]);
                    assert(event_v_wf(evs[i + 1]) && event_v_nonneg(evs[i + 1]));
                }
                lemma_total_volume_matches_open_orders(p.0, evs.drop_first());
            },
            Err(e) => {},
        }
    }
}

} // verus!
