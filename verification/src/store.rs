//! The inventory store model: every table the services read and write, with
//! the well-formedness invariant each operation preserves, and the shared
//! lookup and summation helpers the operations are specified with.

use crate::ids::valid_car_id;
use crate::ids::valid_warehouse_id;
use crate::models::CarEntity;
use crate::models::MetricsRow;
use crate::models::Reservation;
use crate::models::ReservationStatus;
use crate::models::SaleRecord;
use crate::models::StockLocation;
use crate::models::TransferOrder;
use crate::models::Warehouse;
use vstd::prelude::*;

verus! {

/// Index of the first element satisfying `p`, or -1 if none does.
pub open spec fn first_where<T>(s: Seq<T>, p: spec_fn(T) -> bool) -> int
    decreases s.len(),
{
    if s.len() == 0 {
        -1
    } else if p(s[0]) {
        0
    } else {
        let r = first_where(s.drop_first(), p);
        if r < 0 {
            -1
        } else {
            r + 1
        }
    }
}

/// Characterizes `first_where` by the elements before and at an index.
pub proof fn lemma_first_where_at<T>(s: Seq<T>, p: spec_fn(T) -> bool, i: int)
    requires
        0 <= i <= s.len(),
        forall|j: int| 0 <= j < i ==> !p(s[j]),
        i == s.len() || p(s[i]),
    ensures
        first_where(s, p) == (if i == s.len() {
            -1int
        } else {
            i
        }),
    decreases i,
{
    if s.len() > 0 {
        if i == 0 {
            if s.len() > 0 && !p(s[0]) {
                assert(i < s.len() && p(s[i]));
            }
        } else {
            let d = s.drop_first();
            assert forall|j: int| 0 <= j < i - 1 implies !p(d[j]) by {
                assert(d[j] == s[j + 1]);
            }
            if i - 1 < d.len() {
                assert(d[i - 1] == s[i]);
            }
            lemma_first_where_at(d, p, i - 1);
        }
    }
}

/// What a non-negative `first_where` result means.
pub proof fn lemma_first_where_found<T>(s: Seq<T>, p: spec_fn(T) -> bool)
    ensures
        first_where(s, p) >= 0 ==> 0 <= first_where(s, p) < s.len() && p(
            s[first_where(s, p)],
        ),
        first_where(s, p) == -1 ==> forall|j: int| 0 <= j < s.len() ==> !p(s[j]),
    decreases s.len(),
{
    if s.len() > 0 && !p(s[0]) {
        let d = s.drop_first();
        lemma_first_where_found(d, p);
        let r = first_where(d, p);
        if r >= 0 {
            assert(d[r] == s[r + 1]);
        } else {
            assert forall|j: int| 0 <= j < s.len() implies !p(s[j]) by {
                if j > 0 {
                    assert(d[j - 1] == s[j]);
                }
            }
        }
    }
}

/// The sum of `f` over a sequence.
pub open spec fn sum_over<T>(s: Seq<T>, f: spec_fn(T) -> int) -> int
    decreases s.len(),
{
    if s.len() == 0 {
        0
    } else {
        sum_over(s.drop_last(), f) + f(s.last())
    }
}

/// One step of summation over a growing prefix.
pub proof fn lemma_sum_over_take_step<T>(s: Seq<T>, f: spec_fn(T) -> int, i: int)
    requires
        0 <= i < s.len(),
    ensures
        sum_over(s.take(i + 1), f) == sum_over(s.take(i), f) + f(s[i]),
{
    assert(s.take(i + 1).drop_last() =~= s.take(i));
    assert(s.take(i + 1).last() == s[i]);
}

/// The whole sequence is its own full prefix.
pub proof fn lemma_sum_over_take_all<T>(s: Seq<T>, f: spec_fn(T) -> int)
    ensures
        sum_over(s.take(s.len() as int), f) == sum_over(s, f),
{
    assert(s.take(s.len() as int) =~= s);
}

/// When `f` is non-negative on the elements, every prefix sum is at most
/// the full sum.
pub proof fn lemma_sum_over_prefix_bound<T>(s: Seq<T>, f: spec_fn(T) -> int, i: int)
    requires
        0 <= i <= s.len(),
        forall|j: int| 0 <= j < s.len() ==> #[trigger] f(s[j]) >= 0,
    ensures
        sum_over(s.take(i), f) <= sum_over(s, f),
        sum_over(s.take(i), f) >= 0,
    decreases s.len(),
{
    if i == s.len() {
        lemma_sum_over_take_all(s, f);
        lemma_sum_over_nonneg(s, f);
    } else {
        let d = s.drop_last();
        assert(s.take(i) =~= d.take(i));
        assert forall|j: int| 0 <= j < d.len() implies #[trigger] f(d[j]) >= 0 by {
            assert(d[j] == s[j]);
        }
        lemma_sum_over_prefix_bound(d, f, i);
        assert(f(s.last()) >= 0);
    }
}

/// When `f` is non-negative on the elements, the sum is non-negative.
pub proof fn lemma_sum_over_nonneg<T>(s: Seq<T>, f: spec_fn(T) -> int)
    requires
        forall|j: int| 0 <= j < s.len() ==> #[trigger] f(s[j]) >= 0,
    ensures
        sum_over(s, f) >= 0,
    decreases s.len(),
{
    if s.len() > 0 {
        let d = s.drop_last();
        assert forall|j: int| 0 <= j < d.len() implies #[trigger] f(d[j]) >= 0 by {
            assert(d[j] == s[j]);
        }
        lemma_sum_over_nonneg(d, f);
        assert(f(s.last()) >= 0);
    }
}

/// Replacing one element changes the sum by the difference at that index.
pub proof fn lemma_sum_over_update<T>(s: Seq<T>, f: spec_fn(T) -> int, i: int, v: T)
    requires
        0 <= i < s.len(),
    ensures
        sum_over(s.update(i, v), f) == sum_over(s, f) - f(s[i]) + f(v),
    decreases s.len(),
{
    let u = s.update(i, v);
    if i == s.len() - 1 {
        assert(u.drop_last() =~= s.drop_last());
        assert(u.last() == v);
    } else {
        assert(u.drop_last() =~= s.drop_last().update(i, v));
        assert(u.last() == s.last());
        lemma_sum_over_update(s.drop_last(), f, i, v);
    }
}

/// A sum of contributions each bounded by `b` is bounded by the length
/// times `b`.
pub proof fn lemma_sum_over_bound<T>(s: Seq<T>, f: spec_fn(T) -> int, b: int)
    requires
        0 <= b,
        forall|j: int| 0 <= j < s.len() ==> 0 <= #[trigger] f(s[j]) <= b,
    ensures
        0 <= sum_over(s, f) <= s.len() * b,
    decreases s.len(),
{
    if s.len() == 0 {
    } else {
        let d = s.drop_last();
        assert forall|j: int| 0 <= j < d.len() implies 0 <= #[trigger] f(d[j]) <= b by {
            assert(d[j] == s[j]);
        }
        lemma_sum_over_bound(d, f, b);
        assert(f(s.last()) <= b);
        assert((s.len() - 1) * b + b == s.len() * b) by (nonlinear_arith);
    }
}

/// A pointwise smaller contribution function gives a smaller sum.
pub proof fn lemma_sum_over_le_fn<T>(s: Seq<T>, f1: spec_fn(T) -> int, f2: spec_fn(T) -> int)
    requires
        forall|j: int| 0 <= j < s.len() ==> #[trigger] f1(s[j]) <= f2(s[j]),
    ensures
        sum_over(s, f1) <= sum_over(s, f2),
    decreases s.len(),
{
    if s.len() > 0 {
        let d = s.drop_last();
        assert forall|j: int| 0 <= j < d.len() implies #[trigger] f1(d[j]) <= f2(d[j]) by {
            assert(d[j] == s[j]);
        }
        lemma_sum_over_le_fn(d, f1, f2);
        assert(f1(s.last()) <= f2(s.last()));
    }
}

/// Pointwise smaller contributions give a smaller sum.
pub proof fn lemma_sum_over_pointwise_le<T>(a: Seq<T>, b: Seq<T>, f: spec_fn(T) -> int)
    requires
        a.len() == b.len(),
        forall|k: int| 0 <= k < a.len() ==> #[trigger] f(a[k]) <= f(b[k]),
    ensures
        sum_over(a, f) <= sum_over(b, f),
    decreases a.len(),
{
    if a.len() > 0 {
        let da = a.drop_last();
        let db = b.drop_last();
        assert forall|k: int| 0 <= k < da.len() implies #[trigger] f(da[k]) <= f(db[k]) by {
            assert(da[k] == a[k] && db[k] == b[k]);
        }
        lemma_sum_over_pointwise_le(da, db, f);
        assert(f(a.last()) <= f(b.last()));
    }
}

/// Appending one element adds its contribution.
pub proof fn lemma_sum_over_push<T>(s: Seq<T>, f: spec_fn(T) -> int, v: T)
    ensures
        sum_over(s.push(v), f) == sum_over(s, f) + f(v),
{
    assert(s.push(v).drop_last() =~= s);
    assert(s.push(v).last() == v);
}

/// The elements satisfying `p`, in order.
pub open spec fn filter_seq<T>(s: Seq<T>, p: spec_fn(T) -> bool) -> Seq<T>
    decreases s.len(),
{
    if s.len() == 0 {
        Seq::empty()
    } else {
        filter_seq(s.drop_last(), p) + (if p(s.last()) {
            seq![s.last()]
        } else {
            Seq::<T>::empty()
        })
    }
}

/// One step of filtering over a growing prefix.
pub proof fn lemma_filter_seq_take_step<T>(s: Seq<T>, p: spec_fn(T) -> bool, i: int)
    requires
        0 <= i < s.len(),
    ensures
        filter_seq(s.take(i + 1), p) == filter_seq(s.take(i), p) + (if p(s[i]) {
            seq![s[i]]
        } else {
            Seq::<T>::empty()
        }),
{
    assert(s.take(i + 1).drop_last() =~= s.take(i));
    assert(s.take(i + 1).last() == s[i]);
}

/// The whole sequence is its own full prefix.
pub proof fn lemma_filter_seq_take_all<T>(s: Seq<T>, p: spec_fn(T) -> bool)
    ensures
        filter_seq(s.take(s.len() as int), p) == filter_seq(s, p),
{
    assert(s.take(s.len() as int) =~= s);
}

/// Filtering never lengthens a sequence.
pub proof fn lemma_filter_seq_len<T>(s: Seq<T>, p: spec_fn(T) -> bool)
    ensures
        filter_seq(s, p).len() <= s.len(),
    decreases s.len(),
{
    if s.len() > 0 {
        lemma_filter_seq_len(s.drop_last(), p);
    }
}

/// A car row that read paths can see.
pub open spec fn car_live(c: CarEntity) -> bool {
    c.deleted_at is None
}

/// A reservation that counts against available stock at time `now`.
pub open spec fn counts_pending(r: Reservation, id: Seq<char>, now: int) -> bool {
    r.car_id@ == id && r.status == ReservationStatus::Pending && r.expires_at > now
}

/// The pending, non-expired quantity held against car `id` at time `now`.
pub open spec fn pending_sum(rs: Seq<Reservation>, id: Seq<char>, now: int) -> int {
    sum_over(
        rs,
        |r: Reservation|
            if counts_pending(r, id, now) {
                r.quantity as int
            } else {
                0
            },
    )
}

/// The legal reservation status transitions: a pending reservation can be
/// confirmed, expired or cancelled, and a confirmed one completed; nothing
/// else moves.
pub open spec fn reservation_transition_allowed(
    from: ReservationStatus,
    to: ReservationStatus,
) -> bool {
    ||| (from == ReservationStatus::Pending && (to == ReservationStatus::Confirmed || to
        == ReservationStatus::Expired || to == ReservationStatus::Cancelled))
    ||| (from == ReservationStatus::Confirmed && to == ReservationStatus::Completed)
}

/// How a reservation table may evolve in one operation: existing rows keep
/// their status or move along a legal transition, and new rows start out
/// pending.
pub open spec fn reservations_evolve_ok(pre: Seq<Reservation>, post: Seq<Reservation>) -> bool {
    &&& post.len() >= pre.len()
    &&& forall|k: int|
        0 <= k < pre.len() ==> ((#[trigger] post[k]).status == pre[k].status
            || reservation_transition_allowed(pre[k].status, post[k].status))
    &&& forall|k: int|
        pre.len() <= k < post.len() ==> (#[trigger] post[k]).status
            == ReservationStatus::Pending
}

/// The whole inventory state the services operate on.
pub struct InventoryStore {
    pub cars: Vec<CarEntity>,
    pub reservations: Vec<Reservation>,
    pub warehouses: Vec<Warehouse>,
    pub stock_locations: Vec<StockLocation>,
    pub transfers: Vec<TransferOrder>,
    pub sales: Vec<SaleRecord>,
    pub metrics_history: Vec<MetricsRow>,
}

/// Every row is internally sound.
pub open spec fn rows_wf(s: InventoryStore) -> bool {
    &&& forall|i: int|
        0 <= i < s.cars@.len() ==> {
            &&& valid_car_id(#[trigger] s.cars@[i].car_id@)
            &&& s.cars@[i].quantity_in_stock >= 0
            &&& s.cars@[i].version >= 1
            &&& s.cars@[i].created_at >= 0
            &&& s.cars@[i].updated_at >= 0
        }
    &&& forall|i: int|
        0 <= i < s.reservations@.len() ==> {
            &&& valid_car_id(#[trigger] s.reservations@[i].car_id@)
            &&& s.reservations@[i].quantity >= 1
            &&& s.reservations@[i].expires_at >= 0
            &&& s.reservations@[i].created_at >= 0
            &&& s.reservations@[i].updated_at >= 0
        }
    &&& forall|i: int|
        0 <= i < s.warehouses@.len() ==> {
            &&& valid_warehouse_id(#[trigger] s.warehouses@[i].warehouse_id@)
            &&& s.warehouses@[i].capacity_total >= 1
            &&& s.warehouses@[i].capacity_used >= 0
        }
    &&& forall|i: int|
        0 <= i < s.stock_locations@.len() ==> {
            &&& valid_warehouse_id(#[trigger] s.stock_locations@[i].warehouse_id@)
            &&& valid_car_id(s.stock_locations@[i].car_id@)
            &&& 0 <= s.stock_locations@[i].reserved_quantity <= s.stock_locations@[i].quantity
        }
    &&& forall|i: int|
        0 <= i < s.sales@.len() ==> {
            &&& valid_car_id(#[trigger] s.sales@[i].car_id@)
            &&& s.sales@[i].quantity >= 0
            &&& s.sales@[i].sold_at >= 0
        }
    &&& forall|i: int|
        0 <= i < s.transfers@.len() ==> {
            &&& valid_warehouse_id(#[trigger] s.transfers@[i].from_warehouse_id@)
            &&& valid_warehouse_id(s.transfers@[i].to_warehouse_id@)
            &&& valid_car_id(s.transfers@[i].car_id@)
            &&& s.transfers@[i].quantity >= 1
            &&& s.transfers@[i].from_warehouse_id@ != s.transfers@[i].to_warehouse_id@
        }
}

/// Every identity is unique: car ids, reservation ids, warehouse ids,
/// warehouse-car stock pairs, transfer ids and rollup hours.
pub open spec fn keys_unique(s: InventoryStore) -> bool {
    &&& forall|i: int, j: int|
        0 <= i < j < s.cars@.len() ==> s.cars@[i].car_id@ != s.cars@[j].car_id@
    &&& forall|i: int, j: int|
        0 <= i < j < s.reservations@.len() ==> s.reservations@[i].id != s.reservations@[j].id
    &&& forall|i: int, j: int|
        0 <= i < j < s.warehouses@.len() ==> s.warehouses@[i].warehouse_id@
            != s.warehouses@[j].warehouse_id@
    &&& forall|i: int, j: int|
        0 <= i < j < s.stock_locations@.len() ==> !(s.stock_locations@[i].warehouse_id@
            == s.stock_locations@[j].warehouse_id@ && s.stock_locations@[i].car_id@
            == s.stock_locations@[j].car_id@)
    &&& forall|i: int, j: int|
        0 <= i < j < s.transfers@.len() ==> s.transfers@[i].transfer_id
            != s.transfers@[j].transfer_id
    &&& forall|i: int, j: int|
        0 <= i < j < s.metrics_history@.len() ==> s.metrics_history@[i].metric_hour
            != s.metrics_history@[j].metric_hour
}

/// Recombines the per-table soundness facts into `rows_wf`.
pub proof fn lemma_rows_wf_parts(s: InventoryStore)
    requires
        forall|i: int|
            0 <= i < s.cars@.len() ==> {
                &&& valid_car_id(#[trigger] s.cars@[i].car_id@)
                &&& s.cars@[i].quantity_in_stock >= 0
                &&& s.cars@[i].version >= 1
                &&& s.cars@[i].created_at >= 0
                &&& s.cars@[i].updated_at >= 0
            },
        forall|i: int|
            0 <= i < s.reservations@.len() ==> {
                &&& valid_car_id(#[trigger] s.reservations@[i].car_id@)
                &&& s.reservations@[i].quantity >= 1
                &&& s.reservations@[i].expires_at >= 0
                &&& s.reservations@[i].created_at >= 0
                &&& s.reservations@[i].updated_at >= 0
            },
        forall|i: int|
            0 <= i < s.warehouses@.len() ==> {
                &&& valid_warehouse_id(#[trigger] s.warehouses@[i].warehouse_id@)
                &&& s.warehouses@[i].capacity_total >= 1
                &&& s.warehouses@[i].capacity_used >= 0
            },
        forall|i: int|
            0 <= i < s.stock_locations@.len() ==> {
                &&& valid_warehouse_id(#[trigger] s.stock_locations@[i].warehouse_id@)
                &&& valid_car_id(s.stock_locations@[i].car_id@)
                &&& 0 <= s.stock_locations@[i].reserved_quantity <= s.stock_locations@[
                    i
                ].quantity
            },
        forall|i: int|
            0 <= i < s.sales@.len() ==> {
                &&& valid_car_id(#[trigger] s.sales@[i].car_id@)
                &&& s.sales@[i].quantity >= 0
                &&& s.sales@[i].sold_at >= 0
            },
        forall|i: int|
            0 <= i < s.transfers@.len() ==> {
                &&& valid_warehouse_id(#[trigger] s.transfers@[i].from_warehouse_id@)
                &&& valid_warehouse_id(s.transfers@[i].to_warehouse_id@)
                &&& valid_car_id(s.transfers@[i].car_id@)
                &&& s.transfers@[i].quantity >= 1
                &&& s.transfers@[i].from_warehouse_id@ != s.transfers@[i].to_warehouse_id@
            },
    ensures
        rows_wf(s),
{
}

/// Every reservation names a car row that exists (live or soft-deleted).
pub open spec fn refs_ok(s: InventoryStore) -> bool {
    forall|i: int|
        0 <= i < s.reservations@.len() ==> exists|j: int|
            0 <= j < s.cars@.len() && (#[trigger] s.reservations@[i]).car_id@ == s.cars@[
                j
            ].car_id@
}

/// The time-independent well-formedness of the store.
pub open spec fn store_wf(s: InventoryStore) -> bool {
    rows_wf(s) && keys_unique(s) && refs_ok(s)
}

/// Nothing is held against a car no reservation names.
pub proof fn lemma_pending_sum_absent(rs: Seq<Reservation>, id: Seq<char>, now: int)
    requires
        forall|j: int| 0 <= j < rs.len() ==> (#[trigger] rs[j]).car_id@ != id,
    ensures
        pending_sum(rs, id, now) == 0,
    decreases rs.len(),
{
    if rs.len() > 0 {
        let d = rs.drop_last();
        assert forall|j: int| 0 <= j < d.len() implies (#[trigger] d[j]).car_id@ != id by {
            assert(d[j] == rs[j]);
        }
        lemma_pending_sum_absent(d, id, now);
        assert(!counts_pending(rs.last(), id, now));
    }
}

/// Replacing a car row without changing its identifier keeps every
/// reservation's reference intact.
pub proof fn lemma_refs_ok_car_update(
    pre: InventoryStore,
    post: InventoryStore,
    i: int,
    c: CarEntity,
)
    requires
        refs_ok(pre),
        0 <= i < pre.cars@.len(),
        post.cars@ == pre.cars@.update(i, c),
        c.car_id@ == pre.cars@[i].car_id@,
        post.reservations@ == pre.reservations@,
    ensures
        refs_ok(post),
{
    assert forall|k: int| 0 <= k < post.reservations@.len() implies exists|j: int|
        0 <= j < post.cars@.len() && (#[trigger] post.reservations@[k]).car_id@ == post.cars@[
            j
        ].car_id@ by {
        let j0 = choose|j: int|
            0 <= j < pre.cars@.len() && pre.reservations@[k].car_id@ == pre.cars@[j].car_id@;
        assert(post.cars@[j0].car_id@ == pre.cars@[j0].car_id@);
    }
}

/// Adding rows, car rows included, keeps every reference intact.
pub proof fn lemma_refs_ok_car_push(pre: InventoryStore, post: InventoryStore, c: CarEntity)
    requires
        refs_ok(pre),
        post.cars@ == pre.cars@.push(c),
        post.reservations@ == pre.reservations@,
    ensures
        refs_ok(post),
{
    assert forall|k: int| 0 <= k < post.reservations@.len() implies exists|j: int|
        0 <= j < post.cars@.len() && (#[trigger] post.reservations@[k]).car_id@ == post.cars@[
            j
        ].car_id@ by {
        let j0 = choose|j: int|
            0 <= j < pre.cars@.len() && pre.reservations@[k].car_id@ == pre.cars@[j].car_id@;
        assert(post.cars@[j0].car_id@ == pre.cars@[j0].car_id@);
    }
}

/// Adding a reservation that names an existing car, or replacing one
/// without changing which car it names, keeps every reference intact.
pub proof fn lemma_refs_ok_reservations_changed(pre: InventoryStore, post: InventoryStore)
    requires
        refs_ok(pre),
        post.cars@ == pre.cars@,
        forall|k: int|
            0 <= k < post.reservations@.len() ==> exists|j: int|
                0 <= j < pre.reservations@.len() && (
                #[trigger] post.reservations@[k]).car_id@ == pre.reservations@[j].car_id@,
    ensures
        refs_ok(post),
{
    assert forall|k: int| 0 <= k < post.reservations@.len() implies exists|j: int|
        0 <= j < post.cars@.len() && (#[trigger] post.reservations@[k]).car_id@ == post.cars@[
            j
        ].car_id@ by {
        let k0 = choose|j: int|
            0 <= j < pre.reservations@.len() && post.reservations@[k].car_id@
                == pre.reservations@[j].car_id@;
        let j0 = choose|j: int|
            0 <= j < pre.cars@.len() && pre.reservations@[k0].car_id@ == pre.cars@[j].car_id@;
        assert(post.cars@[j0].car_id@ == pre.cars@[j0].car_id@);
    }
}

/// Everything but the car table is unchanged.
pub open spec fn same_but_cars(pre: InventoryStore, post: InventoryStore) -> bool {
    &&& post.reservations@ == pre.reservations@
    &&& post.warehouses@ == pre.warehouses@
    &&& post.stock_locations@ == pre.stock_locations@
    &&& post.transfers@ == pre.transfers@
    &&& post.sales@ == pre.sales@
    &&& post.metrics_history@ == pre.metrics_history@
}

/// Everything but the reservation table is unchanged.
pub open spec fn same_but_reservations(pre: InventoryStore, post: InventoryStore) -> bool {
    &&& post.cars@ == pre.cars@
    &&& post.warehouses@ == pre.warehouses@
    &&& post.stock_locations@ == pre.stock_locations@
    &&& post.transfers@ == pre.transfers@
    &&& post.sales@ == pre.sales@
    &&& post.metrics_history@ == pre.metrics_history@
}

/// The stock invariant only reads cars and reservations, so operations on
/// the other tables keep it at every time.
pub proof fn lemma_stock_covers_frame(pre: InventoryStore, post: InventoryStore)
    requires
        post.cars@ == pre.cars@,
        post.reservations@ == pre.reservations@,
    ensures
        forall|t: int| stock_covers_pending(pre, t) ==> stock_covers_pending(post, t),
{
    assert forall|t: int| stock_covers_pending(pre, t) implies stock_covers_pending(post, t) by {
        assert forall|i: int|
            0 <= i < post.cars@.len() && car_live(#[trigger] post.cars@[i]) implies post.cars@[
            i
        ].quantity_in_stock >= pending_sum(post.reservations@, post.cars@[i].car_id@, t) by {
            assert(post.cars@[i] == pre.cars@[i]);
        }
    }
}

/// So is the reference invariant.
pub proof fn lemma_refs_ok_frame(pre: InventoryStore, post: InventoryStore)
    requires
        refs_ok(pre),
        post.cars@ == pre.cars@,
        post.reservations@ == pre.reservations@,
    ensures
        refs_ok(post),
{
    assert forall|k: int| 0 <= k < post.reservations@.len() implies exists|j: int|
        0 <= j < post.cars@.len() && (#[trigger] post.reservations@[k]).car_id@ == post.cars@[
            j
        ].car_id@ by {
        let j0 = choose|j: int|
            0 <= j < pre.cars@.len() && pre.reservations@[k].car_id@ == pre.cars@[j].car_id@;
        assert(post.cars@[j0].car_id@ == pre.cars@[j0].car_id@);
    }
}

/// Everything but the warehouse, stock-location and transfer tables is
/// unchanged.
pub open spec fn same_but_warehousing(pre: InventoryStore, post: InventoryStore) -> bool {
    &&& post.cars@ == pre.cars@
    &&& post.reservations@ == pre.reservations@
    &&& post.sales@ == pre.sales@
    &&& post.metrics_history@ == pre.metrics_history@
}

/// The whole store is unchanged.
pub open spec fn unchanged(pre: InventoryStore, post: InventoryStore) -> bool {
    &&& post.cars@ == pre.cars@
    &&& same_but_cars(pre, post)
}

/// The stock invariant at time `now`: every live car's stock covers the
/// pending, non-expired reservations held against it.
pub open spec fn stock_covers_pending(s: InventoryStore, now: int) -> bool {
    forall|i: int|
        0 <= i < s.cars@.len() && car_live(#[trigger] s.cars@[i]) ==> s.cars@[
            i
        ].quantity_in_stock >= pending_sum(s.reservations@, s.cars@[i].car_id@, now)
}

/// As time passes, a reservation that counted may expire but none starts
/// counting, so the pending total can only shrink and the stock invariant
/// is kept.
pub proof fn lemma_pending_sum_antitone(rs: Seq<Reservation>, id: Seq<char>, n1: int, n2: int)
    requires
        n1 <= n2,
        forall|i: int| 0 <= i < rs.len() ==> (#[trigger] rs[i]).quantity >= 0,
    ensures
        pending_sum(rs, id, n2) <= pending_sum(rs, id, n1),
    decreases rs.len(),
{
    if rs.len() > 0 {
        let d = rs.drop_last();
        assert forall|i: int| 0 <= i < d.len() implies (#[trigger] d[i]).quantity >= 0 by {
            assert(d[i] == rs[i]);
        }
        lemma_pending_sum_antitone(d, id, n1, n2);
        assert(rs.last().quantity >= 0);
    }
}

/// The stock invariant is kept as time moves forward with the store
/// unchanged.
pub proof fn lemma_stock_covers_pending_antitone(s: InventoryStore, n1: int, n2: int)
    requires
        rows_wf(s),
        stock_covers_pending(s, n1),
        n1 <= n2,
    ensures
        stock_covers_pending(s, n2),
{
    assert forall|k: int|
        0 <= k < s.reservations@.len() implies (#[trigger] s.reservations@[k]).quantity >= 0 by {
        assert(valid_car_id(s.reservations@[k].car_id@));
    }
    assert forall|i: int|
        0 <= i < s.cars@.len() && car_live(#[trigger] s.cars@[i]) implies s.cars@[
        i
    ].quantity_in_stock >= pending_sum(s.reservations@, s.cars@[i].car_id@, n2) by {
        lemma_pending_sum_antitone(s.reservations@, s.cars@[i].car_id@, n1, n2);
    }
}

impl InventoryStore {
    /// An empty store, well formed at every time.
    pub fn new() -> (r: InventoryStore)
        ensures
            store_wf(r),
            forall|now: int| stock_covers_pending(r, now),
            r.cars@.len() == 0,
            r.reservations@.len() == 0,
            r.warehouses@.len() == 0,
            r.stock_locations@.len() == 0,
            r.transfers@.len() == 0,
            r.sales@.len() == 0,
            r.metrics_history@.len() == 0,
    {
        InventoryStore {
            cars: Vec::new(),
            reservations: Vec::new(),
            warehouses: Vec::new(),
            stock_locations: Vec::new(),
            transfers: Vec::new(),
            sales: Vec::new(),
            metrics_history: Vec::new(),
        }
    }

    /// The index of the live car with the given identifier.
    pub open spec fn live_car_index(self, id: Seq<char>) -> int {
        first_where(self.cars@, |c: CarEntity| car_live(c) && c.car_id@ == id)
    }

    /// The index of the car row (live or soft-deleted) with the given
    /// identifier.
    pub open spec fn any_car_index(self, id: Seq<char>) -> int {
        first_where(self.cars@, |c: CarEntity| c.car_id@ == id)
    }

    /// The index of the reservation with the given identifier.
    pub open spec fn reservation_index(self, id: u128) -> int {
        first_where(self.reservations@, |r: Reservation| r.id == id)
    }

    /// The index of the warehouse with the given identifier.
    pub open spec fn warehouse_index(self, id: Seq<char>) -> int {
        first_where(self.warehouses@, |w: Warehouse| w.warehouse_id@ == id)
    }

    /// The index of the stock row for the given warehouse and car.
    pub open spec fn stock_location_index(self, wid: Seq<char>, cid: Seq<char>) -> int {
        first_where(
            self.stock_locations@,
            |l: StockLocation| l.warehouse_id@ == wid && l.car_id@ == cid,
        )
    }

    /// The index of the transfer order with the given identifier.
    pub open spec fn transfer_index(self, id: u128) -> int {
        first_where(self.transfers@, |t: TransferOrder| t.transfer_id == id)
    }

    /// The index of the rollup row for the given hour.
    pub open spec fn metrics_row_index(self, hour: int) -> int {
        first_where(self.metrics_history@, |m: MetricsRow| m.metric_hour == hour)
    }

    /// Finds the live car with the given identifier.
    #[verifier::loop_isolation(false)]
    pub fn find_live_car(&self, id: &str) -> (r: Option<usize>)
        ensures
            match r {
                Some(i) => self.live_car_index(id@) == i as int && i < self.cars@.len()
                    && car_live(self.cars@[i as int]) && self.cars@[i as int].car_id@ == id@,
                None => self.live_car_index(id@) == -1 && forall|j: int|
                    0 <= j < self.cars@.len() ==> !(car_live(#[trigger] self.cars@[j])
                        && self.cars@[j].car_id@ == id@),
            },
    {
        let ghost p = |c: CarEntity| car_live(c) && c.car_id@ == id@;
        let n = self.cars.len();
        let mut i: usize = 0;
        while i < n
            invariant
                i <= n,
                n == self.cars@.len(),
                forall|j: int| 0 <= j < i ==> !p(#[trigger] self.cars@[j]),
            decreases n - i,
        {
            let c = &self.cars[i];
            let live = match c.deleted_at {
                Option::None => true,
                Option::Some(_) => false,
            };
            if live && crate::textutil::str_eq(c.car_id.as_str(), id) {
                proof {
                    lemma_first_where_at(self.cars@, p, i as int);
                }
                return Some(i);
            }
            i += 1;
        }
        proof {
            lemma_first_where_at(self.cars@, p, n as int);
        }
        None
    }

    /// Finds the car row, live or soft-deleted, with the given identifier.
    #[verifier::loop_isolation(false)]
    pub fn find_any_car(&self, id: &str) -> (r: Option<usize>)
        ensures
            match r {
                Some(i) => self.any_car_index(id@) == i as int && i < self.cars@.len()
                    && self.cars@[i as int].car_id@ == id@,
                None => self.any_car_index(id@) == -1 && forall|j: int|
                    0 <= j < self.cars@.len() ==> (#[trigger] self.cars@[j].car_id@) != id@,
            },
    {
        let ghost p = |c: CarEntity| c.car_id@ == id@;
        let n = self.cars.len();
        let mut i: usize = 0;
        while i < n
            invariant
                i <= n,
                n == self.cars@.len(),
                forall|j: int| 0 <= j < i ==> !p(#[trigger] self.cars@[j]),
            decreases n - i,
        {
            let c = &self.cars[i];
            if crate::textutil::str_eq(c.car_id.as_str(), id) {
                proof {
                    lemma_first_where_at(self.cars@, p, i as int);
                }
                return Some(i);
            }
            i += 1;
        }
        proof {
            lemma_first_where_at(self.cars@, p, n as int);
        }
        None
    }

    /// Finds the reservation with the given identifier.
    #[verifier::loop_isolation(false)]
    pub fn find_reservation(&self, id: u128) -> (r: Option<usize>)
        ensures
            match r {
                Some(i) => self.reservation_index(id) == i as int && i < self.reservations@.len()
                    && self.reservations@[i as int].id == id,
                None => self.reservation_index(id) == -1 && forall|j: int|
                    0 <= j < self.reservations@.len() ==> (#[trigger] self.reservations@[j].id)
                        != id,
            },
    {
        let ghost p = |r: Reservation| r.id == id;
        let n = self.reservations.len();
        let mut i: usize = 0;
        while i < n
            invariant
                i <= n,
                n == self.reservations@.len(),
                forall|j: int| 0 <= j < i ==> !p(#[trigger] self.reservations@[j]),
            decreases n - i,
        {
            if self.reservations[i].id == id {
                proof {
                    lemma_first_where_at(self.reservations@, p, i as int);
                }
                return Some(i);
            }
            i += 1;
        }
        proof {
            lemma_first_where_at(self.reservations@, p, n as int);
        }
        None
    }

    /// Finds the warehouse with the given identifier.
    #[verifier::loop_isolation(false)]
    pub fn find_warehouse(&self, id: &str) -> (r: Option<usize>)
        ensures
            match r {
                Some(i) => self.warehouse_index(id@) == i as int && i < self.warehouses@.len()
                    && self.warehouses@[i as int].warehouse_id@ == id@,
                None => self.warehouse_index(id@) == -1 && forall|j: int|
                    0 <= j < self.warehouses@.len() ==> (
                    #[trigger] self.warehouses@[j].warehouse_id@) != id@,
            },
    {
        let ghost p = |w: Warehouse| w.warehouse_id@ == id@;
        let n = self.warehouses.len();
        let mut i: usize = 0;
        while i < n
            invariant
                i <= n,
                n == self.warehouses@.len(),
                forall|j: int| 0 <= j < i ==> !p(#[trigger] self.warehouses@[j]),
            decreases n - i,
        {
            if crate::textutil::str_eq(self.warehouses[i].warehouse_id.as_str(), id) {
                proof {
                    lemma_first_where_at(self.warehouses@, p, i as int);
                }
                return Some(i);
            }
            i += 1;
        }
        proof {
            lemma_first_where_at(self.warehouses@, p, n as int);
        }
        None
    }

    /// Finds the stock row for the given warehouse and car.
    #[verifier::loop_isolation(false)]
    pub fn find_stock_location(&self, wid: &str, cid: &str) -> (r: Option<usize>)
        ensures
            match r {
                Some(i) => self.stock_location_index(wid@, cid@) == i as int && i
                    < self.stock_locations@.len() && self.stock_locations@[i as int].warehouse_id@
                    == wid@ && self.stock_locations@[i as int].car_id@ == cid@,
                None => self.stock_location_index(wid@, cid@) == -1 && forall|j: int|
                    0 <= j < self.stock_locations@.len() ==> !((
                    #[trigger] self.stock_locations@[j].warehouse_id@) == wid@
                        && self.stock_locations@[j].car_id@ == cid@),
            },
    {
        let ghost p = |l: StockLocation| l.warehouse_id@ == wid@ && l.car_id@ == cid@;
        let n = self.stock_locations.len();
        let mut i: usize = 0;
        while i < n
            invariant
                i <= n,
                n == self.stock_locations@.len(),
                forall|j: int| 0 <= j < i ==> !p(#[trigger] self.stock_locations@[j]),
            decreases n - i,
        {
            let l = &self.stock_locations[i];
            if crate::textutil::str_eq(l.warehouse_id.as_str(), wid) && crate::textutil::str_eq(
                l.car_id.as_str(),
                cid,
            ) {
                proof {
                    lemma_first_where_at(self.stock_locations@, p, i as int);
                }
                return Some(i);
            }
            i += 1;
        }
        proof {
            lemma_first_where_at(self.stock_locations@, p, n as int);
        }
        None
    }

    /// Finds the transfer order with the given identifier.
    #[verifier::loop_isolation(false)]
    pub fn find_transfer(&self, id: u128) -> (r: Option<usize>)
        ensures
            match r {
                Some(i) => self.transfer_index(id) == i as int && i < self.transfers@.len()
                    && self.transfers@[i as int].transfer_id == id,
                None => self.transfer_index(id) == -1 && forall|j: int|
                    0 <= j < self.transfers@.len() ==> (
                    #[trigger] self.transfers@[j].transfer_id) != id,
            },
    {
        let ghost p = |t: TransferOrder| t.transfer_id == id;
        let n = self.transfers.len();
        let mut i: usize = 0;
        while i < n
            invariant
                i <= n,
                n == self.transfers@.len(),
                forall|j: int| 0 <= j < i ==> !p(#[trigger] self.transfers@[j]),
            decreases n - i,
        {
            if self.transfers[i].transfer_id == id {
                proof {
                    lemma_first_where_at(self.transfers@, p, i as int);
                }
                return Some(i);
            }
            i += 1;
        }
        proof {
            lemma_first_where_at(self.transfers@, p, n as int);
        }
        None
    }

    /// Finds the rollup row for the given hour.
    #[verifier::loop_isolation(false)]
    pub fn find_metrics_row(&self, hour: i64) -> (r: Option<usize>)
        ensures
            match r {
                Some(i) => self.metrics_row_index(hour as int) == i as int && i
                    < self.metrics_history@.len() && self.metrics_history@[i as int].metric_hour
                    == hour,
                None => self.metrics_row_index(hour as int) == -1 && forall|j: int|
                    0 <= j < self.metrics_history@.len() ==> (
                    #[trigger] self.metrics_history@[j].metric_hour) != hour,
            },
    {
        let ghost p = |m: MetricsRow| m.metric_hour == hour as int;
        let n = self.metrics_history.len();
        let mut i: usize = 0;
        while i < n
            invariant
                i <= n,
                n == self.metrics_history@.len(),
                forall|j: int| 0 <= j < i ==> !p(#[trigger] self.metrics_history@[j]),
            decreases n - i,
        {
            if self.metrics_history[i].metric_hour == hour {
                proof {
                    lemma_first_where_at(self.metrics_history@, p, i as int);
                }
                return Some(i);
            }
            i += 1;
        }
        proof {
            lemma_first_where_at(self.metrics_history@, p, n as int);
        }
        None
    }

    /// Sums the pending, non-expired quantity held against one car. The
    /// bound comes from the stock invariant: the sum never exceeds the
    /// live car's stock.
    #[verifier::loop_isolation(false)]
    pub fn pending_quantity(&self, id: &str, now: i64) -> (r: i64)
        requires
            pending_sum(self.reservations@, id@, now as int) <= i32::MAX,
            forall|j: int|
                0 <= j < self.reservations@.len() ==> (
                #[trigger] self.reservations@[j]).quantity >= 0,
        ensures
            r == pending_sum(self.reservations@, id@, now as int),
    {
        let ghost f = |r: Reservation|
            if counts_pending(r, id@, now as int) {
                r.quantity as int
            } else {
                0
            };
        proof {
            assert forall|j: int|
                0 <= j < self.reservations@.len() implies #[trigger] f(
                self.reservations@[j],
            ) >= 0 by {}
        }
        let n = self.reservations.len();
        let mut i: usize = 0;
        let mut acc: i64 = 0;
        while i < n
            invariant
                i <= n,
                n == self.reservations@.len(),
                acc == sum_over(self.reservations@.take(i as int), f),
                sum_over(self.reservations@, f) <= i32::MAX,
                forall|j: int|
                    0 <= j < self.reservations@.len() ==> #[trigger] f(self.reservations@[j])
                        >= 0,
            decreases n - i,
        {
            let rsv = &self.reservations[i];
            proof {
                lemma_sum_over_take_step(self.reservations@, f, i as int);
                lemma_sum_over_prefix_bound(self.reservations@, f, i as int + 1);
            }
            let counts = rsv.status == ReservationStatus::Pending && rsv.expires_at > now
                && crate::textutil::str_eq(rsv.car_id.as_str(), id);
            if counts {
                acc = acc + rsv.quantity as i64;
            }
            i += 1;
        }
        proof {
            lemma_sum_over_take_all(self.reservations@, f);
        }
        acc
    }
}

} // verus!
