//! Read-only analytics over the inventory model: the dashboard totals,
//! the low-stock and depreciation reports, the stock alerts, the sales
//! velocity, and a live metrics snapshot. Report order is fixed by a
//! verified stable sort on integer keys.

use crate::errors::AppError;
use crate::models::CarEntity;
use crate::models::CarResponse;
use crate::models::car_response_matches;
use crate::models::car_response_of;
use crate::store::InventoryStore;
use crate::store::car_live;
use crate::store::filter_seq;
use crate::store::first_where;
use crate::store::lemma_filter_seq_take_all;
use crate::store::lemma_filter_seq_take_step;
use crate::store::lemma_first_where_at;
use crate::store::lemma_first_where_found;
use crate::store::lemma_sum_over_prefix_bound;
use crate::store::lemma_sum_over_push;
use crate::store::lemma_sum_over_take_all;
use crate::store::lemma_sum_over_take_step;
use crate::store::sum_over;
use crate::models::SaleRecord;
use crate::models::StockAlert;
use crate::models::StockTrend;
use crate::models::SuggestedAction;
use crate::models::SalesVelocity;
use crate::models::InventoryAlertSummary;
use crate::store::pending_sum;
use crate::store::stock_covers_pending;
use crate::store::store_wf;
use crate::worker::live_car_count;
use crate::worker::low_stock_count;
use crate::worker::total_value_cents;
use vstd::prelude::*;

verus! {

/// Where a stable by-key insertion places `x` in an already sorted
/// sequence: before the first strictly greater key, else at the end.
pub open spec fn insert_pos<T>(sorted: Seq<(i64, T)>, x: (i64, T)) -> int {
    let i = first_where(sorted, |y: (i64, T)| y.0 > x.0);
    if i < 0 {
        sorted.len() as int
    } else {
        i
    }
}

/// The stable ascending by-key sort: elements are inserted left to right,
/// each before the first strictly greater key, so equal keys keep their
/// original order.
pub open spec fn sort_pairs_spec<T>(s: Seq<(i64, T)>) -> Seq<(i64, T)>
    decreases s.len(),
{
    if s.len() == 0 {
        Seq::empty()
    } else {
        let sorted = sort_pairs_spec(s.drop_last());
        sorted.insert(insert_pos(sorted, s.last()), s.last())
    }
}

/// The sort keeps the length.
pub proof fn lemma_sort_pairs_len<T>(s: Seq<(i64, T)>)
    ensures
        sort_pairs_spec(s).len() == s.len(),
    decreases s.len(),
{
    if s.len() > 0 {
        lemma_sort_pairs_len(s.drop_last());
        let sorted = sort_pairs_spec(s.drop_last());
        let p = insert_pos(sorted, s.last());
        lemma_first_where_found(sorted, |y: (i64, T)| y.0 > s.last().0);
        sorted.insert_ensures(p, s.last());
    }
}

/// The sorted order: keys ascend.
pub proof fn lemma_sort_pairs_sorted<T>(s: Seq<(i64, T)>)
    ensures
        sort_pairs_spec(s).len() == s.len(),
        forall|i: int, j: int|
            0 <= i < j < s.len() ==> sort_pairs_spec(s)[i].0 <= sort_pairs_spec(s)[j].0,
    decreases s.len(),
{
    lemma_sort_pairs_len(s);
    if s.len() > 0 {
        let d = s.drop_last();
        lemma_sort_pairs_sorted(d);
        let sorted = sort_pairs_spec(d);
        let x = s.last();
        let gp = |y: (i64, T)| y.0 > x.0;
        lemma_first_where_found(sorted, gp);
        let p = insert_pos(sorted, x);
        let out = sorted.insert(p, x);
        sorted.insert_ensures(p, x);
        assert forall|i: int, j: int| 0 <= i < j < out.len() implies out[i].0 <= out[j].0 by {
            if p >= 1 {
                lemma_first_where_prefix(sorted, gp, p);
            }
            if i == p {
                if j > p {
                    assert(out[j] == sorted[j - 1]);
                    assert(gp(sorted[p]) || p == sorted.len());
                    assert(sorted[p].0 <= sorted[j - 1].0);
                }
            } else if j == p {
                assert(out[i] == sorted[i]);
                assert(!gp(sorted[i]));
            } else {
                let i0 = if i < p {
                    i
                } else {
                    i - 1
                };
                let j0 = if j < p {
                    j
                } else {
                    j - 1
                };
                assert(out[i] == sorted[i0] && out[j] == sorted[j0]);
            }
        }
    }
}

/// Every element before a non-negative `first_where` index fails the
/// predicate.
proof fn lemma_first_where_prefix<T>(s: Seq<T>, p: spec_fn(T) -> bool, k: int)
    requires
        first_where(s, p) == k || (first_where(s, p) == -1 && k == s.len()),
        0 <= k <= s.len(),
    ensures
        forall|i: int| 0 <= i < k ==> !p(s[i]),
    decreases s.len(),
{
    if s.len() > 0 && k > 0 {
        let d = s.drop_first();
        lemma_first_where_prefix(d, p, k - 1);
        assert forall|i: int| 0 <= i < k implies !p(s[i]) by {
            if i > 0 {
                assert(d[i - 1] == s[i]);
            }
        }
    }
}

/// Sorts key-value pairs by key, stably and ascending.
#[verifier::loop_isolation(false)]
pub fn sort_pairs<T>(v: Vec<(i64, T)>) -> (r: Vec<(i64, T)>)
    ensures
        r@ == sort_pairs_spec(v@),
{
    let ghost orig = v@;
    let mut v = v;
    let n0 = v.len();
    let mut r: Vec<(i64, T)> = Vec::new();
    let mut i: usize = 0;
    while v.len() > 0
        invariant
            orig.len() == n0,
            i <= orig.len(),
            v@ == orig.skip(i as int),
            r@ == sort_pairs_spec(orig.take(i as int)),
        decreases v@.len(),
    {
        proof {
            assert(orig.skip(i as int).len() == orig.len() - i);
        }
        let x = v.remove(0);
        proof {
            assert(i < orig.len());
            assert(x == orig[i as int]);
            assert(v@ =~= orig.skip(i as int + 1));
        }
        let key = x.0;
        let rlen = r.len();
        let mut pos: usize = 0;
        let mut found = false;
        while !found && pos < rlen
            invariant
                pos <= rlen,
                rlen == r@.len(),
                forall|j: int| 0 <= j < pos ==> !((#[trigger] r@[j]).0 > key),
                found ==> pos < rlen && r@[pos as int].0 > key,
            decreases rlen - pos + (if found { 0int } else { 1int }),
        {
            if r[pos].0 > key {
                found = true;
            } else {
                pos += 1;
            }
        }
        proof {
            let gp = |y: (i64, T)| y.0 > x.0;
            if found {
                lemma_first_where_at(r@, gp, pos as int);
            } else {
                lemma_first_where_at(r@, gp, rlen as int);
            }
            assert(pos as int == insert_pos(r@, x));
            assert(orig.take(i as int + 1).drop_last() =~= orig.take(i as int));
            assert(orig.take(i as int + 1).last() == orig[i as int]);
        }
        r.insert(pos, x);
        i += 1;
    }
    proof {
        assert(orig.take(orig.len() as int) =~= orig);
        assert(i as int == orig.len());
    }
    r
}


/// Where a stable by-text insertion places `x` in an already sorted
/// sequence: before the first strictly greater key, else at the end.
pub open spec fn insert_pos_by_name<T>(sorted: Seq<(String, T)>, x: (String, T)) -> int {
    let i = first_where(sorted, |y: (String, T)| crate::textutil::lex_lt(x.0@, y.0@));
    if i < 0 {
        sorted.len() as int
    } else {
        i
    }
}

/// The stable ascending lexicographic sort on text keys: elements are
/// inserted left to right, each before the first strictly greater key, so
/// equal keys keep their original order.
pub open spec fn sort_by_name_spec<T>(s: Seq<(String, T)>) -> Seq<(String, T)>
    decreases s.len(),
{
    if s.len() == 0 {
        Seq::empty()
    } else {
        let sorted = sort_by_name_spec(s.drop_last());
        sorted.insert(insert_pos_by_name(sorted, s.last()), s.last())
    }
}

/// The by-name sort keeps the length.
pub proof fn lemma_sort_by_name_len<T>(s: Seq<(String, T)>)
    ensures
        sort_by_name_spec(s).len() == s.len(),
    decreases s.len(),
{
    if s.len() > 0 {
        lemma_sort_by_name_len(s.drop_last());
        let sorted = sort_by_name_spec(s.drop_last());
        let x = s.last();
        let p = insert_pos_by_name(sorted, x);
        lemma_first_where_found(sorted, |y: (String, T)| crate::textutil::lex_lt(x.0@, y.0@));
        sorted.insert_ensures(p, x);
    }
}

/// Sorts text-keyed pairs by key, stably and ascending.
#[verifier::loop_isolation(false)]
pub fn sort_by_name<T>(v: Vec<(String, T)>) -> (r: Vec<(String, T)>)
    ensures
        r@ == sort_by_name_spec(v@),
{
    let ghost orig = v@;
    let mut v = v;
    let n0 = v.len();
    let mut r: Vec<(String, T)> = Vec::new();
    let mut i: usize = 0;
    while v.len() > 0
        invariant
            orig.len() == n0,
            i <= orig.len(),
            v@ == orig.skip(i as int),
            r@ == sort_by_name_spec(orig.take(i as int)),
        decreases v@.len(),
    {
        proof {
            assert(orig.skip(i as int).len() == orig.len() - i);
        }
        let x = v.remove(0);
        proof {
            assert(i < orig.len());
            assert(x == orig[i as int]);
            assert(v@ =~= orig.skip(i as int + 1));
        }
        let rlen = r.len();
        let mut pos: usize = 0;
        let mut found = false;
        while !found && pos < rlen
            invariant
                pos <= rlen,
                rlen == r@.len(),
                forall|j: int|
                    0 <= j < pos ==> !crate::textutil::lex_lt(x.0@, (#[trigger] r@[j]).0@),
                found ==> pos < rlen && crate::textutil::lex_lt(x.0@, r@[pos as int].0@),
            decreases rlen - pos + (if found { 0int } else { 1int }),
        {
            if crate::textutil::str_lt(x.0.as_str(), r[pos].0.as_str()) {
                found = true;
            } else {
                pos += 1;
            }
        }
        proof {
            let gp = |y: (String, T)| crate::textutil::lex_lt(x.0@, y.0@);
            if found {
                lemma_first_where_at(r@, gp, pos as int);
            } else {
                lemma_first_where_at(r@, gp, rlen as int);
            }
            assert(pos as int == insert_pos_by_name(r@, x));
            assert(orig.take(i as int + 1).drop_last() =~= orig.take(i as int));
            assert(orig.take(i as int + 1).last() == orig[i as int]);
        }
        r.insert(pos, x);
        i += 1;
    }
    proof {
        assert(orig.take(orig.len() as int) =~= orig);
        assert(i as int == orig.len());
    }
    r
}

/// A copy of a car response.
pub fn clone_car_response(c: &CarResponse) -> (r: CarResponse)
    ensures
        r == *c,
{
    CarResponse {
        id: c.id.clone(),
        brand: c.brand.clone(),
        model: c.model.clone(),
        year: c.year,
        price: c.price.clone(),
        is_available: c.is_available,
        created_at: c.created_at,
        updated_at: c.updated_at,
        deleted_at: c.deleted_at,
    }
}

impl InventoryStore {
    /// Builds `(key, response)` pairs, in stored order, for the live cars
    /// matched by `keep`, keyed by `key_of`.
    #[verifier::loop_isolation(false)]
    fn keyed_responses(
        &self,
        keep: Ghost<spec_fn(CarEntity) -> bool>,
        key_of: Ghost<spec_fn(CarEntity) -> int>,
        threshold: i32,
        year_limit: i64,
        mode: u8,
    ) -> (r: Vec<(i64, CarResponse)>)
        requires
            mode == 1 ==> (forall|c: CarEntity|
                (#[trigger] (keep@)(c)) == (car_live(c) && c.quantity_in_stock < threshold))
                && (forall|c: CarEntity| (#[trigger] (key_of@)(c)) == c.quantity_in_stock as int),
            mode == 2 ==> (forall|c: CarEntity|
                (#[trigger] (keep@)(c)) == (car_live(c) && c.year < year_limit && c.status
                    == crate::models::CarStatus::Available)) && (forall|c: CarEntity|
                (#[trigger] (key_of@)(c)) == c.year as int),
            mode == 1 || mode == 2,
        ensures
            ({
                let kept = filter_seq(self.cars@, keep@);
                &&& r@.len() == kept.len()
                &&& forall|k: int|
                    0 <= k < kept.len() ==> (#[trigger] r@[k]).0 == (key_of@)(kept[k])
                        && car_response_matches(r@[k].1, kept[k])
            }),
    {
        let ghost p = keep@;
        let n = self.cars.len();
        let mut r: Vec<(i64, CarResponse)> = Vec::new();
        let mut i: usize = 0;
        while i < n
            invariant
                i <= n,
                n == self.cars@.len(),
                r@.len() == filter_seq(self.cars@.take(i as int), p).len(),
                forall|k: int|
                    0 <= k < r@.len() ==> (#[trigger] r@[k]).0 == (key_of@)(
                        filter_seq(self.cars@.take(i as int), p)[k],
                    ) && car_response_matches(
                        r@[k].1,
                        filter_seq(self.cars@.take(i as int), p)[k],
                    ),
            decreases n - i,
        {
            proof {
                lemma_filter_seq_take_step(self.cars@, p, i as int);
            }
            let c = &self.cars[i];
            let live = match c.deleted_at {
                Option::None => true,
                Option::Some(_) => false,
            };
            let matched: bool = if mode == 1 {
                live && c.quantity_in_stock < threshold
            } else {
                live && (c.year as i64) < year_limit && c.status
                    == crate::models::CarStatus::Available
            };
            if matched {
                let key: i64 = if mode == 1 {
                    c.quantity_in_stock as i64
                } else {
                    c.year as i64
                };
                r.push((key, car_response_of(c)));
            }
            i += 1;
        }
        proof {
            lemma_filter_seq_take_all(self.cars@, p);
        }
        r
    }

    /// The low-stock report: live cars under the threshold (3 when none
    /// is given), ordered by rising stock; equal stock keeps stored order.
    pub fn get_low_stock_report(&self, threshold: Option<i32>) -> (r: Vec<CarResponse>)
        ensures
            ({
                let limit = (match threshold {
                    Some(t) => t,
                    None => 3,
                });
                let kept = filter_seq(
                    self.cars@,
                    |c: CarEntity| car_live(c) && c.quantity_in_stock < limit,
                );
                exists|pairs: Seq<(i64, CarResponse)>|
                    {
                        &&& pairs.len() == kept.len()
                        &&& (forall|k: int|
                            0 <= k < kept.len() ==> (#[trigger] pairs[k]).0 == kept[
                                k
                            ].quantity_in_stock as int && car_response_matches(
                                pairs[k].1,
                                kept[k],
                            ))
                        &&& r@ =~= sort_pairs_spec(pairs).map_values(
                            |y: (i64, CarResponse)| y.1,
                        )
                    }
            }),
    {
        let limit = match threshold {
            Some(t) => t,
            None => 3,
        };
        let ghost p = |c: CarEntity| car_live(c) && c.quantity_in_stock < limit;
        let ghost kf = |c: CarEntity| c.quantity_in_stock as int;
        let pairs = self.keyed_responses(Ghost(p), Ghost(kf), limit, 0, 1);
        let ghost pairs_view = pairs@;
        let sorted = sort_pairs(pairs);
        extract_responses(sorted)
    }

    /// The depreciation report: live, available cars older than five years
    /// before `current_year`, ordered by rising model year.
    pub fn get_depreciation_report(&self, current_year: i32) -> (r: Vec<CarResponse>)
        ensures
            ({
                let kept = filter_seq(
                    self.cars@,
                    |c: CarEntity|
                        car_live(c) && c.year < current_year - 5 && c.status
                            == crate::models::CarStatus::Available,
                );
                exists|pairs: Seq<(i64, CarResponse)>|
                    {
                        &&& pairs.len() == kept.len()
                        &&& (forall|k: int|
                            0 <= k < kept.len() ==> (#[trigger] pairs[k]).0 == kept[k].year as int
                                && car_response_matches(pairs[k].1, kept[k]))
                        &&& r@ =~= sort_pairs_spec(pairs).map_values(
                            |y: (i64, CarResponse)| y.1,
                        )
                    }
            }),
    {
        let year_limit: i64 = current_year as i64 - 5;
        let ghost p = |c: CarEntity|
            car_live(c) && c.year < current_year - 5 && c.status
                == crate::models::CarStatus::Available;
        let ghost kf = |c: CarEntity| c.year as int;
        let pairs = self.keyed_responses(Ghost(p), Ghost(kf), 0, year_limit, 2);
        proof {
            assert forall|c: CarEntity| (#[trigger] p(c)) implies (car_live(c) && (
            c.year as i64) < year_limit && c.status == crate::models::CarStatus::Available) by {}
        }
        let sorted = sort_pairs(pairs);
        extract_responses(sorted)
    }
}

/// Drops the keys from sorted pairs, keeping the order.
#[verifier::loop_isolation(false)]
fn extract_responses(v: Vec<(i64, CarResponse)>) -> (r: Vec<CarResponse>)
    ensures
        r@ =~= v@.map_values(|y: (i64, CarResponse)| y.1),
{
    let ghost orig = v@;
    let mut v = v;
    let n0 = v.len();
    let mut r: Vec<CarResponse> = Vec::new();
    let mut i: usize = 0;
    while v.len() > 0
        invariant
            orig.len() == n0,
            i <= orig.len(),
            v@ == orig.skip(i as int),
            r@.len() == i,
            forall|k: int| 0 <= k < i ==> #[trigger] r@[k] == orig[k].1,
        decreases v@.len(),
    {
        proof {
            assert(orig.skip(i as int).len() == orig.len() - i);
        }
        let x = v.remove(0);
        proof {
            assert(i < orig.len());
            assert(x == orig[i as int]);
            assert(v@ =~= orig.skip(i as int + 1));
        }
        r.push(x.1);
        i += 1;
    }
    proof {
        assert(r@ =~= orig.map_values(|y: (i64, CarResponse)| y.1));
    }
    r
}

/// Units of one status among the live cars.
pub open spec fn status_units(cars: Seq<CarEntity>, st: crate::models::CarStatus) -> int {
    sum_over(
        cars,
        |c: CarEntity|
            if car_live(c) && c.status == st {
                1int
            } else {
                0
            },
    )
}

/// Inventory value of one status among the live cars, in cents.
pub open spec fn status_value(cars: Seq<CarEntity>, st: crate::models::CarStatus) -> int {
    sum_over(
        cars,
        |c: CarEntity|
            if car_live(c) && c.status == st {
                c.price_cents * c.quantity_in_stock
            } else {
                0
            },
    )
}

/// One status's value never exceeds the total inventory value.
proof fn lemma_status_value_le_total(cars: Seq<CarEntity>, st: crate::models::CarStatus)
    requires
        forall|j: int| 0 <= j < cars.len() ==> (#[trigger] cars[j]).quantity_in_stock >= 0,
    ensures
        status_value(cars, st) <= total_value_cents(cars),
{
    let f1 = |c: CarEntity|
        if car_live(c) && c.status == st {
            c.price_cents * c.quantity_in_stock
        } else {
            0
        };
    let f2 = |c: CarEntity|
        if car_live(c) {
            c.price_cents * c.quantity_in_stock
        } else {
            0
        };
    assert forall|j: int| 0 <= j < cars.len() implies #[trigger] f1(cars[j]) <= f2(cars[j]) by {
        if car_live(cars[j]) && !(cars[j].status == st) {
            assert(cars[j].price_cents * cars[j].quantity_in_stock >= 0) by (nonlinear_arith)
                requires
                    cars[j].price_cents >= 0,
                    cars[j].quantity_in_stock >= 0,
            ;
        }
    }
    crate::store::lemma_sum_over_le_fn(cars, f1, f2);
}

/// One per-status line of the dashboard.
pub struct InventoryStatusStat {
    pub status: crate::models::CarStatus,
    pub total_units: i64,
    pub inventory_value_cents: u128,
}

/// The dashboard: per-status totals for the statuses present, and the
/// grand total inventory value.
pub struct DashboardStats {
    pub status_distribution: Vec<InventoryStatusStat>,
    pub total_inventory_value_cents: u128,
}

/// The dashboard lines, in the fixed status order, keeping only statuses
/// with at least one unit.
pub open spec fn dashboard_rows(cars: Seq<CarEntity>) -> Seq<(crate::models::CarStatus, int, int)> {
    let sts = seq![
        crate::models::CarStatus::Available,
        crate::models::CarStatus::Sold,
        crate::models::CarStatus::Reserved,
        crate::models::CarStatus::Maintenance,
    ];
    Seq::new(4, |i: int| (sts[i], status_units(cars, sts[i]), status_value(cars, sts[i]))).filter(
        |row: (crate::models::CarStatus, int, int)| row.1 > 0,
    )
}

/// A live metrics snapshot.
pub struct InventoryMetrics {
    pub total_cars: i64,
    pub total_value_cents: u128,
    pub total_warehouses: i64,
    pub active_reservations: i64,
    pub reserved_units: i64,
    pub low_stock_items: i64,
}

/// Reservations currently pending, with no expiry filter, as the metrics
/// snapshot counts them.
pub open spec fn pending_status_count(rs: Seq<crate::models::Reservation>) -> int {
    sum_over(
        rs,
        |r: crate::models::Reservation|
            if r.status == crate::models::ReservationStatus::Pending {
                1int
            } else {
                0
            },
    )
}

/// Units held by reservations currently pending, with no expiry filter.
pub open spec fn pending_status_units(rs: Seq<crate::models::Reservation>) -> int {
    sum_over(
        rs,
        |r: crate::models::Reservation|
            if r.status == crate::models::ReservationStatus::Pending {
                r.quantity as int
            } else {
                0
            },
    )
}

impl InventoryStore {
    /// Counts units and value of one status among the live cars.
    #[verifier::loop_isolation(false)]
    fn status_stat(&self, st: crate::models::CarStatus) -> (r: Result<(i64, u128), AppError>)
        requires
            crate::store::store_wf(*self),
            self.cars@.len() <= i64::MAX,
        ensures
            match r {
                Ok((n, v)) => n == status_units(self.cars@, st) && v == status_value(
                    self.cars@,
                    st,
                ),
                Err(e) => e matches AppError::DatabaseError(_) && status_value(self.cars@, st)
                    > u128::MAX,
            },
    {
        let ghost fu = |c: CarEntity|
            if car_live(c) && c.status == st {
                1int
            } else {
                0
            };
        let ghost fv = |c: CarEntity|
            if car_live(c) && c.status == st {
                c.price_cents * c.quantity_in_stock
            } else {
                0
            };
        proof {
            assert forall|j: int|
                0 <= j < self.cars@.len() implies #[trigger] fv(self.cars@[j]) >= 0 by {
                assert(crate::ids::valid_car_id(self.cars@[j].car_id@));
            }
        }
        let n = self.cars.len();
        let mut units: i64 = 0;
        let mut value: u128 = 0;
        let mut i: usize = 0;
        while i < n
            invariant
                i <= n,
                n == self.cars@.len(),
                n <= i64::MAX,
                0 <= units <= i,
                units == sum_over(self.cars@.take(i as int), fu),
                value == sum_over(self.cars@.take(i as int), fv),
            decreases n - i,
        {
            proof {
                lemma_sum_over_take_step(self.cars@, fu, i as int);
                lemma_sum_over_take_step(self.cars@, fv, i as int);
                assert(crate::ids::valid_car_id(self.cars@[i as int].car_id@));
            }
            let c = &self.cars[i];
            let live = match c.deleted_at {
                Option::None => true,
                Option::Some(_) => false,
            };
            if live && c.status == st {
                units = units + 1;
                proof {
                    assert((self.cars@[i as int].price_cents as int) * (self.cars@[
                        i as int
                    ].quantity_in_stock as int) < 0x800000000000000000000000int)
                        by (nonlinear_arith)
                        requires
                            0 <= self.cars@[i as int].price_cents < 0x10000000000000000int,
                            0 <= self.cars@[i as int].quantity_in_stock < 0x80000000int,
                    ;
                }
                let term: u128 = (c.price_cents as u128) * (if c.quantity_in_stock >= 0 {
                    c.quantity_in_stock as u128
                } else {
                    0
                });
                if value > u128::MAX - term {
                    proof {
                        lemma_sum_over_prefix_bound(self.cars@, fv, i as int + 1);
                    }
                    return Err(AppError::DatabaseError(String::from_str("numeric overflow")));
                }
                value = value + term;
            }
            i += 1;
        }
        proof {
            lemma_sum_over_take_all(self.cars@, fu);
            lemma_sum_over_take_all(self.cars@, fv);
        }
        Ok((units, value))
    }

    /// The dashboard: per-status unit and value totals over the live cars
    /// (statuses with no units are left out, in a fixed order), plus the
    /// grand total inventory value.
    pub fn get_dashboard_stats(&self) -> (r: Result<DashboardStats, AppError>)
        requires
            crate::store::store_wf(*self),
            self.cars@.len() <= i64::MAX,
        ensures
            match r {
                Ok(d) => {
                    let rows = dashboard_rows(self.cars@);
                    &&& d.status_distribution@.len() == rows.len()
                    &&& forall|i: int|
                        0 <= i < rows.len() ==> {
                            &&& (#[trigger] d.status_distribution@[i]).status == rows[i].0
                            &&& d.status_distribution@[i].total_units == rows[i].1
                            &&& d.status_distribution@[i].inventory_value_cents == rows[i].2
                        }
                    &&& d.total_inventory_value_cents == total_value_cents(self.cars@)
                },
                Err(e) => e matches AppError::DatabaseError(_) && total_value_cents(self.cars@)
                    > u128::MAX,
            },
    {
        let ghost fv = |c: CarEntity|
            if car_live(c) {
                c.price_cents * c.quantity_in_stock
            } else {
                0
            };
        proof {
            assert forall|j: int|
                0 <= j < self.cars@.len() implies #[trigger] fv(self.cars@[j]) >= 0 by {
                assert(crate::ids::valid_car_id(self.cars@[j].car_id@));
            }
        }
        let s_av = match self.status_stat(crate::models::CarStatus::Available) {
            Ok(v) => v,
            Err(e) => {
                proof {
                    assert forall|j: int|
                        0 <= j < self.cars@.len() implies (
                    #[trigger] self.cars@[j]).quantity_in_stock >= 0 by {
                        assert(crate::ids::valid_car_id(self.cars@[j].car_id@));
                    }
                    lemma_status_value_le_total(self.cars@, crate::models::CarStatus::Available);
                }
                return Err(e);
            },
        };
        let s_so = match self.status_stat(crate::models::CarStatus::Sold) {
            Ok(v) => v,
            Err(e) => {
                proof {
                    assert forall|j: int|
                        0 <= j < self.cars@.len() implies (
                    #[trigger] self.cars@[j]).quantity_in_stock >= 0 by {
                        assert(crate::ids::valid_car_id(self.cars@[j].car_id@));
                    }
                    lemma_status_value_le_total(self.cars@, crate::models::CarStatus::Sold);
                }
                return Err(e);
            },
        };
        let s_re = match self.status_stat(crate::models::CarStatus::Reserved) {
            Ok(v) => v,
            Err(e) => {
                proof {
                    assert forall|j: int|
                        0 <= j < self.cars@.len() implies (
                    #[trigger] self.cars@[j]).quantity_in_stock >= 0 by {
                        assert(crate::ids::valid_car_id(self.cars@[j].car_id@));
                    }
                    lemma_status_value_le_total(self.cars@, crate::models::CarStatus::Reserved);
                }
                return Err(e);
            },
        };
        let s_ma = match self.status_stat(crate::models::CarStatus::Maintenance) {
            Ok(v) => v,
            Err(e) => {
                proof {
                    assert forall|j: int|
                        0 <= j < self.cars@.len() implies (
                    #[trigger] self.cars@[j]).quantity_in_stock >= 0 by {
                        assert(crate::ids::valid_car_id(self.cars@[j].car_id@));
                    }
                    lemma_status_value_le_total(
                        self.cars@,
                        crate::models::CarStatus::Maintenance,
                    );
                }
                return Err(e);
            },
        };
        let total = match self.total_inventory_value() {
            Ok(v) => v,
            Err(e) => {
                return Err(e);
            },
        };
        let mut dist: Vec<InventoryStatusStat> = Vec::new();
        if s_av.0 > 0 {
            dist.push(
                InventoryStatusStat {
                    status: crate::models::CarStatus::Available,
                    total_units: s_av.0,
                    inventory_value_cents: s_av.1,
                },
            );
        }
        if s_so.0 > 0 {
            dist.push(
                InventoryStatusStat {
                    status: crate::models::CarStatus::Sold,
                    total_units: s_so.0,
                    inventory_value_cents: s_so.1,
                },
            );
        }
        if s_re.0 > 0 {
            dist.push(
                InventoryStatusStat {
                    status: crate::models::CarStatus::Reserved,
                    total_units: s_re.0,
                    inventory_value_cents: s_re.1,
                },
            );
        }
        if s_ma.0 > 0 {
            dist.push(
                InventoryStatusStat {
                    status: crate::models::CarStatus::Maintenance,
                    total_units: s_ma.0,
                    inventory_value_cents: s_ma.1,
                },
            );
        }
        proof {
            let sts = seq![
                crate::models::CarStatus::Available,
                crate::models::CarStatus::Sold,
                crate::models::CarStatus::Reserved,
                crate::models::CarStatus::Maintenance,
            ];
            let all = Seq::new(
                4,
                |i: int| (sts[i], status_units(self.cars@, sts[i]), status_value(
                    self.cars@,
                    sts[i],
                )),
            );
            let keep = |row: (crate::models::CarStatus, int, int)| row.1 > 0;
            reveal_with_fuel(Seq::filter, 6);
            assert(all.drop_last() =~= Seq::new(
                3,
                |i: int| (sts[i], status_units(self.cars@, sts[i]), status_value(
                    self.cars@,
                    sts[i],
                )),
            ));
            assert(all.drop_last().drop_last() =~= Seq::new(
                2,
                |i: int| (sts[i], status_units(self.cars@, sts[i]), status_value(
                    self.cars@,
                    sts[i],
                )),
            ));
            assert(all.drop_last().drop_last().drop_last() =~= Seq::new(
                1,
                |i: int| (sts[i], status_units(self.cars@, sts[i]), status_value(
                    self.cars@,
                    sts[i],
                )),
            ));
            assert(all.drop_last().drop_last().drop_last().drop_last() =~= Seq::<
                (crate::models::CarStatus, int, int),
            >::empty());
        }
        Ok(DashboardStats { status_distribution: dist, total_inventory_value_cents: total })
    }

    /// The total inventory value of the live cars, in cents.
    #[verifier::loop_isolation(false)]
    fn total_inventory_value(&self) -> (r: Result<u128, AppError>)
        requires
            crate::store::store_wf(*self),
        ensures
            match r {
                Ok(v) => v == total_value_cents(self.cars@),
                Err(e) => e matches AppError::DatabaseError(_) && total_value_cents(self.cars@)
                    > u128::MAX,
            },
    {
        let ghost fv = |c: CarEntity|
            if car_live(c) {
                c.price_cents * c.quantity_in_stock
            } else {
                0
            };
        proof {
            assert forall|j: int|
                0 <= j < self.cars@.len() implies #[trigger] fv(self.cars@[j]) >= 0 by {
                assert(crate::ids::valid_car_id(self.cars@[j].car_id@));
            }
        }
        let n = self.cars.len();
        let mut value: u128 = 0;
        let mut i: usize = 0;
        while i < n
            invariant
                i <= n,
                n == self.cars@.len(),
                value == sum_over(self.cars@.take(i as int), fv),
            decreases n - i,
        {
            proof {
                lemma_sum_over_take_step(self.cars@, fv, i as int);
            }
            let c = &self.cars[i];
            let live = match c.deleted_at {
                Option::None => true,
                Option::Some(_) => false,
            };
            if live {
                proof {
                    assert((self.cars@[i as int].price_cents as int) * (self.cars@[
                        i as int
                    ].quantity_in_stock as int) < 0x800000000000000000000000int)
                        by (nonlinear_arith)
                        requires
                            0 <= self.cars@[i as int].price_cents < 0x10000000000000000int,
                            0 <= self.cars@[i as int].quantity_in_stock < 0x80000000int,
                    ;
                }
                let term: u128 = (c.price_cents as u128) * (if c.quantity_in_stock >= 0 {
                    c.quantity_in_stock as u128
                } else {
                    0
                });
                if value > u128::MAX - term {
                    proof {
                        lemma_sum_over_prefix_bound(self.cars@, fv, i as int + 1);
                    }
                    return Err(AppError::DatabaseError(String::from_str("numeric overflow")));
                }
                value = value + term;
            }
            i += 1;
        }
        proof {
            lemma_sum_over_take_all(self.cars@, fv);
        }
        Ok(value)
    }

    /// The live metrics snapshot: car and warehouse counts, total value,
    /// currently pending reservations and their units, and low-stock
    /// count.
    #[verifier::loop_isolation(false)]
    pub fn get_inventory_metrics(&self) -> (r: Result<InventoryMetrics, AppError>)
        requires
            crate::store::store_wf(*self),
            self.cars@.len() <= i64::MAX,
            self.reservations@.len() <= i64::MAX,
            self.warehouses@.len() <= i64::MAX,
        ensures
            match r {
                Ok(m) => {
                    &&& m.total_cars == live_car_count(self.cars@)
                    &&& m.total_value_cents == total_value_cents(self.cars@)
                    &&& m.total_warehouses == self.warehouses@.len()
                    &&& m.active_reservations == pending_status_count(self.reservations@)
                    &&& m.reserved_units == pending_status_units(self.reservations@)
                    &&& m.low_stock_items == low_stock_count(self.cars@)
                },
                Err(e) => e matches AppError::DatabaseError(_) && (total_value_cents(self.cars@)
                    > u128::MAX || pending_status_units(self.reservations@) > i64::MAX),
            },
    {
        let total = match self.total_inventory_value() {
            Ok(v) => v,
            Err(e) => {
                return Err(e);
            },
        };
        let ghost f_live = |c: CarEntity|
            if car_live(c) {
                1int
            } else {
                0
            };
        let ghost f_low = |c: CarEntity|
            if car_live(c) && c.quantity_in_stock <= c.reorder_point {
                1int
            } else {
                0
            };
        let n = self.cars.len();
        let mut total_cars: i64 = 0;
        let mut low: i64 = 0;
        let mut i: usize = 0;
        while i < n
            invariant
                i <= n,
                n == self.cars@.len(),
                n <= i64::MAX,
                0 <= total_cars <= i,
                0 <= low <= i,
                total_cars == sum_over(self.cars@.take(i as int), f_live),
                low == sum_over(self.cars@.take(i as int), f_low),
            decreases n - i,
        {
            proof {
                lemma_sum_over_take_step(self.cars@, f_live, i as int);
                lemma_sum_over_take_step(self.cars@, f_low, i as int);
            }
            let c = &self.cars[i];
            let live = match c.deleted_at {
                Option::None => true,
                Option::Some(_) => false,
            };
            if live {
                total_cars = total_cars + 1;
                if c.quantity_in_stock <= c.reorder_point {
                    low = low + 1;
                }
            }
            i += 1;
        }
        proof {
            lemma_sum_over_take_all(self.cars@, f_live);
            lemma_sum_over_take_all(self.cars@, f_low);
        }
        let ghost g_cnt = |r: crate::models::Reservation|
            if r.status == crate::models::ReservationStatus::Pending {
                1int
            } else {
                0
            };
        let ghost g_units = |r: crate::models::Reservation|
            if r.status == crate::models::ReservationStatus::Pending {
                r.quantity as int
            } else {
                0
            };
        proof {
            assert forall|j: int|
                0 <= j < self.reservations@.len() implies (
            #[trigger] self.reservations@[j]).quantity >= 0 by {
                assert(crate::ids::valid_car_id(self.reservations@[j].car_id@));
            }
        }
        let nres = self.reservations.len();
        let mut active: i64 = 0;
        let mut units_acc: u128 = 0;
        let mut k: usize = 0;
        while k < nres
            invariant
                k <= nres,
                nres == self.reservations@.len(),
                nres <= i64::MAX,
                0 <= active <= k,
                active == sum_over(self.reservations@.take(k as int), g_cnt),
                units_acc == (if sum_over(self.reservations@.take(k as int), g_units)
                    <= 0x8000000000000000int {
                    sum_over(self.reservations@.take(k as int), g_units)
                } else {
                    0x8000000000000000int
                }),
                units_acc <= 0x8000000000000000,
                forall|j: int|
                    0 <= j < self.reservations@.len() ==> (
                    #[trigger] self.reservations@[j]).quantity >= 0,
            decreases nres - k,
        {
            proof {
                lemma_sum_over_take_step(self.reservations@, g_cnt, k as int);
                lemma_sum_over_take_step(self.reservations@, g_units, k as int);
                lemma_sum_over_prefix_bound(self.reservations@, g_units, k as int);
            }
            let rsv = &self.reservations[k];
            if rsv.status == crate::models::ReservationStatus::Pending {
                active = active + 1;
                if units_acc < 0x8000000000000000 {
                    units_acc = units_acc + rsv.quantity as u128;
                    if units_acc > 0x8000000000000000 {
                        units_acc = 0x8000000000000000;
                    }
                }
            }
            k += 1;
        }
        proof {
            lemma_sum_over_take_all(self.reservations@, g_cnt);
            lemma_sum_over_take_all(self.reservations@, g_units);
        }
        if units_acc > i64::MAX as u128 {
            return Err(AppError::DatabaseError(String::from_str("bigint out of range")));
        }
        Ok(
            InventoryMetrics {
                total_cars,
                total_value_cents: total,
                total_warehouses: self.warehouses.len() as i64,
                active_reservations: active,
                reserved_units: units_acc as i64,
                low_stock_items: low,
            },
        )
    }
}

/// A sale of car `id` within the last `days` days before `now`.
pub open spec fn sale_in_window(r: SaleRecord, id: Seq<char>, now: int, days: int) -> bool {
    r.car_id@ == id && r.sold_at > now - days * 86400
}

/// How many sales of car `id` fall in the window.
pub open spec fn sales_count(
    sales: Seq<SaleRecord>,
    id: Seq<char>,
    now: int,
    days: int,
) -> int {
    sum_over(
        sales,
        |r: SaleRecord|
            if sale_in_window(r, id, now, days) {
                1int
            } else {
                0
            },
    )
}

/// The units sold of car `id` in the window.
pub open spec fn sales_units(
    sales: Seq<SaleRecord>,
    id: Seq<char>,
    now: int,
    days: int,
) -> int {
    sum_over(
        sales,
        |r: SaleRecord|
            if sale_in_window(r, id, now, days) {
                r.quantity as int
            } else {
                0
            },
    )
}

/// A live car the alert report looks at: stock at or under one and a half
/// times its reorder point.
pub open spec fn alert_candidate(c: CarEntity) -> bool {
    car_live(c) && 2 * c.quantity_in_stock <= 3 * c.reorder_point
}

/// The alert severity of a car.
pub open spec fn alert_level_of(c: CarEntity) -> crate::models::AlertLevel {
    if c.quantity_in_stock <= c.reorder_point {
        crate::models::AlertLevel::Critical
    } else if 2 * c.quantity_in_stock <= 3 * c.reorder_point {
        crate::models::AlertLevel::Warning
    } else {
        crate::models::AlertLevel::Normal
    }
}

/// The report's sort key: severity first, then rising stock.
pub open spec fn alert_key_of(c: CarEntity) -> int {
    (match alert_level_of(c) {
        crate::models::AlertLevel::Critical => 0int,
        crate::models::AlertLevel::Warning => 1int,
        crate::models::AlertLevel::Normal => 2int,
    }) * 0x100000000 + c.quantity_in_stock
}

/// The alert row one candidate car produces at time `now`.
pub open spec fn alert_matches(a: StockAlert, c: CarEntity, s: InventoryStore, now: int) -> bool {
    let reserved = pending_sum(s.reservations@, c.car_id@, now);
    let cnt = sales_count(s.sales@, c.car_id@, now, 30);
    let units = sales_units(s.sales@, c.car_id@, now, 30);
    &&& a.car_id@ == c.car_id@
    &&& a.brand@ == c.brand@
    &&& a.model@ == c.model@
    &&& a.current_stock == c.quantity_in_stock
    &&& a.reserved_stock == reserved
    &&& a.available_stock == c.quantity_in_stock - reserved
    &&& a.reorder_point == c.reorder_point
    &&& a.economic_order_qty == c.economic_order_qty
    &&& a.alert_level == alert_level_of(c)
    &&& a.avg_daily_sales_milli == (if cnt > 0 {
        Some((1000 * units / (cnt * 30)) as i64)
    } else {
        Option::<i64>::None
    })
    &&& a.trend == (if cnt > 0 && 1000 * units / (cnt * 30) > 0 {
        StockTrend::Increasing(10)
    } else {
        StockTrend::Stable
    })
    &&& a.days_until_stockout == (if cnt > 0 && 1000 * units / (cnt * 30) > 0 {
        Some((
            (c.quantity_in_stock - reserved) * 1000 / (1000 * units / (cnt * 30))
        ) as i32)
    } else {
        Option::<i32>::None
    })
    &&& a.suggested_action.action_type == crate::models::ActionType::Reorder
    &&& a.suggested_action.description@ == "Stock below reorder point"@
    &&& a.suggested_action.priority == 1
}

/// Every alert row's derived numbers fit their machine integers.
pub open spec fn alerts_feasible(s: InventoryStore, now: int) -> bool {
    forall|j: int|
        0 <= j < s.cars@.len() && alert_candidate(#[trigger] s.cars@[j]) ==> {
            let id = s.cars@[j].car_id@;
            let cnt = sales_count(s.sales@, id, now, 30);
            let units = sales_units(s.sales@, id, now, 30);
            let reserved = pending_sum(s.reservations@, id, now);
            &&& (cnt > 0 ==> 1000 * units / (cnt * 30) <= i64::MAX)
            &&& (cnt > 0 && 1000 * units / (cnt * 30) > 0 ==> (s.cars@[j].quantity_in_stock
                - reserved) * 1000 / (1000 * units / (cnt * 30)) <= i32::MAX)
        }
}

impl InventoryStore {
    /// Sales of one car in the last `days` days: the exact row count and
    /// unit sum.
    #[verifier::loop_isolation(false)]
    fn sales_window(&self, id: &str, now: i64, days: i64) -> (r: (u128, u128))
        requires
            store_wf(*self),
            0 <= now,
            1 <= days <= 100000,
        ensures
            r.0 == sales_count(self.sales@, id@, now as int, days as int),
            r.1 == sales_units(self.sales@, id@, now as int, days as int),
    {
        let ghost gc = |r: SaleRecord|
            if sale_in_window(r, id@, now as int, days as int) {
                1int
            } else {
                0
            };
        let ghost gu = |r: SaleRecord|
            if sale_in_window(r, id@, now as int, days as int) {
                r.quantity as int
            } else {
                0
            };
        proof {
            assert forall|j: int|
                0 <= j < self.sales@.len() implies 0 <= #[trigger] gu(self.sales@[j])
                    <= 0x80000000int by {
                assert(crate::ids::valid_car_id(self.sales@[j].car_id@));
            }
            assert forall|j: int|
                0 <= j < self.sales@.len() implies 0 <= #[trigger] gc(self.sales@[j]) <= 1 by {}
        }
        let n = self.sales.len();
        let cutoff: i64 = now - days * 86400;
        let mut cnt: u128 = 0;
        let mut units: u128 = 0;
        let mut i: usize = 0;
        while i < n
            invariant
                i <= n,
                n == self.sales@.len(),
                cutoff == now - days * 86400,
                cnt == sum_over(self.sales@.take(i as int), gc),
                units == sum_over(self.sales@.take(i as int), gu),
            decreases n - i,
        {
            proof {
                lemma_sum_over_take_step(self.sales@, gc, i as int);
                lemma_sum_over_take_step(self.sales@, gu, i as int);
                let tk = self.sales@.take(i as int);
                assert forall|j: int| 0 <= j < tk.len() implies 0 <= #[trigger] gc(tk[j])
                    <= 1 by {
                    assert(tk[j] == self.sales@[j]);
                }
                assert forall|j: int|
                    0 <= j < tk.len() implies 0 <= #[trigger] gu(tk[j]) <= 0x80000000int by {
                    assert(tk[j] == self.sales@[j]);
                    assert(crate::ids::valid_car_id(self.sales@[j].car_id@));
                }
                crate::store::lemma_sum_over_bound(tk, gc, 1);
                crate::store::lemma_sum_over_bound(tk, gu, 0x80000000int);
                assert(tk.len() * 1 <= 0xFFFFFFFFFFFFFFFFint) by (nonlinear_arith)
                    requires
                        0 <= tk.len() < 0x10000000000000000int,
                ;
                assert(tk.len() * 0x80000000int <= 0x800000000000000000000000int)
                    by (nonlinear_arith)
                    requires
                        0 <= tk.len() < 0x10000000000000000int,
                ;
            }
            let rec = &self.sales[i];
            let hit = rec.sold_at > cutoff && crate::textutil::str_eq(rec.car_id.as_str(), id);
            if hit {
                cnt = cnt + 1;
                units = units + rec.quantity as u128;
            }
            i += 1;
        }
        proof {
            lemma_sum_over_take_all(self.sales@, gc);
            lemma_sum_over_take_all(self.sales@, gu);
        }
        (cnt, units)
    }

    /// The stock alert report at time `now`: one row per live car at or
    /// under one and a half times its reorder point, with its reserved and
    /// available stock, severity, recent-sales rate and projected days to
    /// stockout, ordered by severity and then rising stock.
    #[verifier::loop_isolation(false)]
    #[verifier::rlimit(100)]
    pub fn get_stock_alerts(&self, now: i64) -> (r: Result<InventoryAlertSummary, AppError>)
        requires
            store_wf(*self),
            stock_covers_pending(*self, now as int),
            0 <= now,
            self.cars@.len() <= i64::MAX,
        ensures
            match r {
                Ok(summary) => {
                    let kept = filter_seq(self.cars@, |c: CarEntity| alert_candidate(c));
                    &&& alerts_feasible(*self, now as int)
                    &&& exists|pairs: Seq<(i64, StockAlert)>|
                        {
                            &&& pairs.len() == kept.len()
                            &&& (forall|k: int|
                                0 <= k < kept.len() ==> (#[trigger] pairs[k]).0 == alert_key_of(
                                    kept[k],
                                ) && alert_matches(pairs[k].1, kept[k], *self, now as int))
                            &&& summary.alerts@ == sort_pairs_spec(pairs).map_values(
                                |y: (i64, StockAlert)| y.1,
                            )
                        }
                    &&& summary.total_alerts == kept.len()
                    &&& summary.critical_count == sum_over(
                        kept,
                        |c: CarEntity|
                            if alert_level_of(c) == crate::models::AlertLevel::Critical {
                                1int
                            } else {
                                0
                            },
                    )
                    &&& summary.warning_count == sum_over(
                        kept,
                        |c: CarEntity|
                            if alert_level_of(c) == crate::models::AlertLevel::Warning {
                                1int
                            } else {
                                0
                            },
                    )
                },
                Err(e) => e matches AppError::DatabaseError(_) && !alerts_feasible(
                    *self,
                    now as int,
                ),
            },
    {
        let ns = self.sales.len();
        proof {
            assert(self.sales@.len() == ns as int);
        }
        let ghost p = |c: CarEntity| alert_candidate(c);
        let ghost fcrit = |c: CarEntity|
            if alert_level_of(c) == crate::models::AlertLevel::Critical {
                1int
            } else {
                0
            };
        let ghost fwarn = |c: CarEntity|
            if alert_level_of(c) == crate::models::AlertLevel::Warning {
                1int
            } else {
                0
            };
        let n = self.cars.len();
        let mut pairs: Vec<(i64, StockAlert)> = Vec::new();
        let mut critical: i64 = 0;
        let mut warning: i64 = 0;
        let mut i: usize = 0;
        while i < n
            invariant
                i <= n,
                n == self.cars@.len(),
                n <= i64::MAX,
                store_wf(*self),
                stock_covers_pending(*self, now as int),
                0 <= now,
                pairs@.len() == filter_seq(self.cars@.take(i as int), p).len(),
                forall|k: int|
                    0 <= k < pairs@.len() ==> (#[trigger] pairs@[k]).0 == alert_key_of(
                        filter_seq(self.cars@.take(i as int), p)[k],
                    ) && alert_matches(
                        pairs@[k].1,
                        filter_seq(self.cars@.take(i as int), p)[k],
                        *self,
                        now as int,
                    ),
                0 <= critical <= i,
                0 <= warning <= i,
                critical == sum_over(filter_seq(self.cars@.take(i as int), p), fcrit),
                warning == sum_over(filter_seq(self.cars@.take(i as int), p), fwarn),
                forall|j2: int|
                    0 <= j2 < i && alert_candidate(#[trigger] self.cars@[j2]) ==> {
                        let id = self.cars@[j2].car_id@;
                        let cnt = sales_count(self.sales@, id, now as int, 30);
                        let units = sales_units(self.sales@, id, now as int, 30);
                        let reserved = pending_sum(self.reservations@, id, now as int);
                        &&& (cnt > 0 ==> 1000 * units / (cnt * 30) <= i64::MAX)
                        &&& (cnt > 0 && 1000 * units / (cnt * 30) > 0 ==> (self.cars@[
                            j2
                        ].quantity_in_stock - reserved) * 1000 / (1000 * units / (cnt * 30))
                            <= i32::MAX)
                    },
            decreases n - i,
        {
            proof {
                lemma_filter_seq_take_step(self.cars@, p, i as int);
                assert(crate::ids::valid_car_id(self.cars@[i as int].car_id@));
            }
            let c = &self.cars[i];
            let live = match c.deleted_at {
                Option::None => true,
                Option::Some(_) => false,
            };
            let candidate = live && 2 * (c.quantity_in_stock as i64) <= 3 * (
            c.reorder_point as i64);
            if candidate {
                proof {
                    assert(car_live(self.cars@[i as int]));
                    assert(self.cars@[i as int].quantity_in_stock >= pending_sum(
                        self.reservations@,
                        self.cars@[i as int].car_id@,
                        now as int,
                    ));
                    let fj = |v: crate::models::Reservation|
                        if crate::store::counts_pending(
                            v,
                            self.cars@[i as int].car_id@,
                            now as int,
                        ) {
                            v.quantity as int
                        } else {
                            0
                        };
                    assert forall|k2: int|
                        0 <= k2 < self.reservations@.len() implies #[trigger] fj(
                        self.reservations@[k2],
                    ) >= 0 by {
                        assert(crate::ids::valid_car_id(self.reservations@[k2].car_id@));
                    }
                    crate::store::lemma_sum_over_nonneg(self.reservations@, fj);
                    assert forall|k2: int|
                        0 <= k2 < self.reservations@.len() implies (
                    #[trigger] self.reservations@[k2]).quantity >= 0 by {
                        assert(crate::ids::valid_car_id(self.reservations@[k2].car_id@));
                    }
                }
                let reserved = self.pending_quantity(c.car_id.as_str(), now);
                let available: i32 = c.quantity_in_stock - reserved as i32;
                let level = if c.quantity_in_stock <= c.reorder_point {
                    crate::models::AlertLevel::Critical
                } else {
                    crate::models::AlertLevel::Warning
                };
                let (cnt, units) = self.sales_window(c.car_id.as_str(), now, 30);
                proof {
                    let gu = |r: SaleRecord|
                        if sale_in_window(r, self.cars@[i as int].car_id@, now as int, 30) {
                            r.quantity as int
                        } else {
                            0
                        };
                    assert forall|j2: int|
                        0 <= j2 < self.sales@.len() implies 0 <= #[trigger] gu(self.sales@[j2])
                            <= 0x80000000int by {
                        assert(crate::ids::valid_car_id(self.sales@[j2].car_id@));
                    }
                    crate::store::lemma_sum_over_bound(self.sales@, gu, 0x80000000int);
                    assert(self.sales@.len() * 0x80000000int <= 0x800000000000000000000000int)
                        by (nonlinear_arith)
                        requires
                            0 <= self.sales@.len() < 0x10000000000000000int,
                    ;
                }
                let avg_milli: Option<i64> = if cnt > 0 {
                    proof {
                        assert forall|j2: int|
                            0 <= j2 < self.sales@.len() implies 0 <= (
                        #[trigger] self.sales@[j2]).quantity < 0x80000000int by {
                            assert(crate::ids::valid_car_id(self.sales@[j2].car_id@));
                        }
                        lemma_window_bounds(self.sales@, self.cars@[i as int].car_id@,
                            now as int, 30);
                        assert((sales_count(self.sales@, self.cars@[i as int].car_id@,
                            now as int, 30)) * 30 <= 0x10000000000000000int * 30)
                            by (nonlinear_arith)
                            requires
                                0 <= sales_count(self.sales@, self.cars@[i as int].car_id@,
                                    now as int, 30) <= 0x10000000000000000int,
                        ;
                        assert((sales_count(self.sales@, self.cars@[i as int].car_id@,
                            now as int, 30)) * 30 >= 30) by (nonlinear_arith)
                            requires
                                sales_count(self.sales@, self.cars@[i as int].car_id@,
                                    now as int, 30) >= 1,
                        ;
                    }
                    let a: u128 = (1000 * units) / (cnt * 30);
                    if a > i64::MAX as u128 {
                        return Err(
                            AppError::DatabaseError(String::from_str("numeric overflow")),
                        );
                    }
                    Some(a as i64)
                } else {
                    None
                };
                let rising = match avg_milli {
                    Some(a) => a > 0,
                    None => false,
                };
                let days_until: Option<i32> = if rising {
                    let a = match avg_milli {
                        Some(a) => a,
                        None => 1,
                    };
                    let d: i64 = (available as i64) * 1000 / a;
                    if d > i32::MAX as i64 {
                        return Err(
                            AppError::DatabaseError(String::from_str("numeric overflow")),
                        );
                    }
                    Some(d as i32)
                } else {
                    None
                };
                let alert = StockAlert {
                    car_id: c.car_id.duplicate(),
                    brand: c.brand.clone(),
                    model: c.model.clone(),
                    current_stock: c.quantity_in_stock,
                    reserved_stock: reserved,
                    available_stock: available,
                    reorder_point: c.reorder_point,
                    economic_order_qty: c.economic_order_qty,
                    alert_level: level,
                    trend: if rising {
                        StockTrend::Increasing(10)
                    } else {
                        StockTrend::Stable
                    },
                    avg_daily_sales_milli: avg_milli,
                    days_until_stockout: days_until,
                    suggested_action: SuggestedAction {
                        action_type: crate::models::ActionType::Reorder,
                        description: String::from_str("Stock below reorder point"),
                        priority: 1,
                    },
                };
                let key: i64 = (match level {
                    crate::models::AlertLevel::Critical => 0i64,
                    crate::models::AlertLevel::Warning => 1i64,
                    crate::models::AlertLevel::Normal => 2i64,
                }) * 0x100000000i64 + c.quantity_in_stock as i64;
                if level == crate::models::AlertLevel::Critical {
                    critical = critical + 1;
                } else {
                    warning = warning + 1;
                }
                proof {
                    lemma_sum_over_push(
                        filter_seq(self.cars@.take(i as int), p),
                        fcrit,
                        self.cars@[i as int],
                    );
                    lemma_sum_over_push(
                        filter_seq(self.cars@.take(i as int), p),
                        fwarn,
                        self.cars@[i as int],
                    );
                    assert(filter_seq(self.cars@.take(i as int + 1), p) =~= filter_seq(
                        self.cars@.take(i as int),
                        p,
                    ).push(self.cars@[i as int]));
                }
                pairs.push((key, alert));
            } else {
                proof {
                    lemma_sum_over_push(
                        filter_seq(self.cars@.take(i as int), p),
                        fcrit,
                        self.cars@[i as int],
                    );
                }
            }
            i += 1;
        }
        proof {
            lemma_filter_seq_take_all(self.cars@, p);
        }
        let ghost pairs_view = pairs@;
        proof {
            crate::store::lemma_filter_seq_len(self.cars@, p);
        }
        let total = pairs.len() as i64;
        let sorted = sort_pairs(pairs);
        let alerts = extract_alerts(sorted);
        Ok(
            InventoryAlertSummary {
                critical_count: critical,
                warning_count: warning,
                total_alerts: total,
                alerts,
            },
        )
    }
}

/// Drops the keys from sorted alert pairs, keeping the order.
#[verifier::loop_isolation(false)]
fn extract_alerts(v: Vec<(i64, StockAlert)>) -> (r: Vec<StockAlert>)
    ensures
        r@ =~= v@.map_values(|y: (i64, StockAlert)| y.1),
{
    let ghost orig = v@;
    let mut v = v;
    let n0 = v.len();
    let mut r: Vec<StockAlert> = Vec::new();
    let mut i: usize = 0;
    while v.len() > 0
        invariant
            orig.len() == n0,
            i <= orig.len(),
            v@ == orig.skip(i as int),
            r@.len() == i,
            forall|k: int| 0 <= k < i ==> #[trigger] r@[k] == orig[k].1,
        decreases v@.len(),
    {
        proof {
            assert(orig.skip(i as int).len() == orig.len() - i);
        }
        let x = v.remove(0);
        proof {
            assert(i < orig.len());
            assert(x == orig[i as int]);
            assert(v@ =~= orig.skip(i as int + 1));
        }
        r.push(x.1);
        i += 1;
    }
    proof {
        assert(r@ =~= orig.map_values(|y: (i64, StockAlert)| y.1));
    }
    r
}

/// Every velocity row's daily rate fits its machine integer.
pub open spec fn velocity_feasible(s: InventoryStore, now: int, days: int) -> bool {
    forall|j: int|
        0 <= j < s.cars@.len() && car_live(#[trigger] s.cars@[j]) && sales_count(
            s.sales@,
            s.cars@[j].car_id@,
            now,
            30,
        ) > 0 ==> 1000 * sales_units(s.sales@, s.cars@[j].car_id@, now, 30) / (sales_count(
            s.sales@,
            s.cars@[j].car_id@,
            now,
            30,
        ) * days) <= i64::MAX
}

/// The velocity row one car produces.
pub open spec fn velocity_matches(
    v: SalesVelocity,
    c: CarEntity,
    s: InventoryStore,
    now: int,
    days: int,
) -> bool {
    let cnt30 = sales_count(s.sales@, c.car_id@, now, 30);
    let units30 = sales_units(s.sales@, c.car_id@, now, 30);
    let cnt7 = sales_count(s.sales@, c.car_id@, now, 7);
    let units7 = sales_units(s.sales@, c.car_id@, now, 7);
    let cnt14 = sales_count(s.sales@, c.car_id@, now, 14);
    let units14 = sales_units(s.sales@, c.car_id@, now, 14);
    let cnt_prev = cnt14 - cnt7;
    let units_prev = units14 - units7;
    &&& v.car_id@ == c.car_id@
    &&& v.brand@ == c.brand@
    &&& v.model@ == c.model@
    &&& v.avg_daily_sales_milli == 1000 * units30 / (cnt30 * days)
    &&& v.last_30_days_sales == cnt30
    &&& v.last_7_days_sales == cnt7
    &&& v.trend_direction@ == (if cnt7 > 0 && cnt_prev > 0 && units7 * cnt_prev > units_prev
        * cnt7 {
        "UP"@
    } else {
        "DOWN"@
    })
}

impl InventoryStore {
    /// The sales velocity report over the last `days` days: one row per
    /// live car with at least one sale in the last 30 days, carrying its
    /// daily rate in thousandths, its 30- and 7-day sale counts, and
    /// whether the last week outpaced the one before; ordered by falling
    /// rate.
    #[verifier::loop_isolation(false)]
    #[verifier::rlimit(100)]
    pub fn get_sales_velocity(&self, days: i32, now: i64) -> (r: Result<
        Vec<SalesVelocity>,
        AppError,
    >)
        requires
            store_wf(*self),
            1 <= days <= 100000,
            0 <= now,
            self.sales@.len() <= 0x80000000,
            self.cars@.len() <= i64::MAX,
        ensures
            match r {
                Ok(rows) => {
                    let kept = filter_seq(
                        self.cars@,
                        |c: CarEntity|
                            car_live(c) && sales_count(self.sales@, c.car_id@, now as int, 30)
                                > 0,
                    );
                    &&& velocity_feasible(*self, now as int, days as int)
                    &&& exists|pairs: Seq<(i64, SalesVelocity)>|
                        {
                            &&& pairs.len() == kept.len()
                            &&& (forall|k: int|
                                0 <= k < kept.len() ==> velocity_matches(
                                    (#[trigger] pairs[k]).1,
                                    kept[k],
                                    *self,
                                    now as int,
                                    days as int,
                                ) && pairs[k].0 == -(1000 * sales_units(
                                    self.sales@,
                                    kept[k].car_id@,
                                    now as int,
                                    30,
                                ) / (sales_count(self.sales@, kept[k].car_id@, now as int, 30)
                                    * days)))
                            &&& rows@ == sort_pairs_spec(pairs).map_values(
                                |y: (i64, SalesVelocity)| y.1,
                            )
                        }
                },
                Err(e) => e matches AppError::DatabaseError(_) && !velocity_feasible(
                    *self,
                    now as int,
                    days as int,
                ),
            },
    {
        let ghost p = |c: CarEntity|
            car_live(c) && sales_count(self.sales@, c.car_id@, now as int, 30) > 0;
        let n = self.cars.len();
        let ns = self.sales.len();
        proof {
            assert(self.sales@.len() == ns as int);
        }
        proof {
            assert forall|j2: int|
                0 <= j2 < self.sales@.len() implies 0 <= (
            #[trigger] self.sales@[j2]).quantity < 0x80000000int by {
                assert(crate::ids::valid_car_id(self.sales@[j2].car_id@));
            }
        }
        let mut pairs: Vec<(i64, SalesVelocity)> = Vec::new();
        let mut i: usize = 0;
        while i < n
            invariant
                i <= n,
                n == self.cars@.len(),
                store_wf(*self),
                0 <= now,
                1 <= days <= 100000,
                self.sales@.len() <= 0x80000000,
                forall|j2: int|
                    0 <= j2 < self.sales@.len() ==> 0 <= (
                    #[trigger] self.sales@[j2]).quantity < 0x80000000int,
                pairs@.len() == filter_seq(self.cars@.take(i as int), p).len(),
                forall|k: int|
                    0 <= k < pairs@.len() ==> velocity_matches(
                        (#[trigger] pairs@[k]).1,
                        filter_seq(self.cars@.take(i as int), p)[k],
                        *self,
                        now as int,
                        days as int,
                    ) && pairs@[k].0 == -(1000 * sales_units(
                        self.sales@,
                        filter_seq(self.cars@.take(i as int), p)[k].car_id@,
                        now as int,
                        30,
                    ) / (sales_count(
                        self.sales@,
                        filter_seq(self.cars@.take(i as int), p)[k].car_id@,
                        now as int,
                        30,
                    ) * days)),
                forall|j2: int|
                    0 <= j2 < i && car_live(#[trigger] self.cars@[j2]) && sales_count(
                        self.sales@,
                        self.cars@[j2].car_id@,
                        now as int,
                        30,
                    ) > 0 ==> 1000 * sales_units(
                        self.sales@,
                        self.cars@[j2].car_id@,
                        now as int,
                        30,
                    ) / (sales_count(self.sales@, self.cars@[j2].car_id@, now as int, 30)
                        * days) <= i64::MAX,
            decreases n - i,
        {
            proof {
                lemma_filter_seq_take_step(self.cars@, p, i as int);
                assert(crate::ids::valid_car_id(self.cars@[i as int].car_id@));
            }
            let c = &self.cars[i];
            let live = match c.deleted_at {
                Option::None => true,
                Option::Some(_) => false,
            };
            if live {
                let (cnt30, units30) = self.sales_window(c.car_id.as_str(), now, 30);
                if cnt30 > 0 {
                    let (cnt7, units7) = self.sales_window(c.car_id.as_str(), now, 7);
                    let (cnt14, units14) = self.sales_window(c.car_id.as_str(), now, 14);
                    proof {
                        lemma_window_monotone(self.sales@, self.cars@[i as int].car_id@,
                            now as int, 7, 14);
                        lemma_window_bounds(self.sales@, self.cars@[i as int].car_id@,
                            now as int, 7);
                        lemma_window_bounds(self.sales@, self.cars@[i as int].car_id@,
                            now as int, 14);
                        lemma_window_bounds(self.sales@, self.cars@[i as int].car_id@,
                            now as int, 30);
                    }
                    proof {
                        assert(sales_count(self.sales@, self.cars@[i as int].car_id@,
                            now as int, 30) * (days as int) <= 0x80000000int * 100000int)
                            by (nonlinear_arith)
                            requires
                                0 <= sales_count(self.sales@, self.cars@[i as int].car_id@,
                                    now as int, 30) <= 0x80000000int,
                                1 <= days <= 100000,
                        ;
                        assert(1000 * sales_units(self.sales@, self.cars@[i as int].car_id@,
                            now as int, 30) <= 1000 * (0x80000000int * 0x80000000int))
                            by (nonlinear_arith)
                            requires
                                0 <= sales_units(self.sales@, self.cars@[i as int].car_id@,
                                    now as int, 30) <= 0x80000000int * 0x80000000int,
                        ;
                        assert(self.sales@.len() * 0x80000000int <= 0x80000000int
                            * 0x80000000int) by (nonlinear_arith)
                            requires
                                0 <= self.sales@.len() <= 0x80000000int,
                        ;
                    }
                    let denom: u128 = cnt30 * (days as u128);
                    proof {
                        assert((cnt30 as int) * (days as int) >= 1) by (nonlinear_arith)
                            requires
                                cnt30 >= 1,
                                days >= 1,
                        ;
                    }
                    let a: u128 = (1000 * units30) / denom;
                    if a > i64::MAX as u128 {
                        return Err(
                            AppError::DatabaseError(String::from_str("numeric overflow")),
                        );
                    }
                    let avg_milli = a as i64;
                    let cnt_prev = cnt14 - cnt7;
                    let units_prev = units14 - units7;
                    proof {
                        let id_i = self.cars@[i as int].car_id@;
                        assert(sales_units(self.sales@, id_i, now as int, 7) * (sales_count(
                            self.sales@,
                            id_i,
                            now as int,
                            14,
                        ) - sales_count(self.sales@, id_i, now as int, 7)) <= (0x80000000int
                            * 0x80000000int) * 0x80000000int) by (nonlinear_arith)
                            requires
                                0 <= sales_units(self.sales@, id_i, now as int, 7)
                                    <= 0x80000000int * 0x80000000int,
                                0 <= sales_count(self.sales@, id_i, now as int, 14)
                                    - sales_count(self.sales@, id_i, now as int, 7)
                                    <= 0x80000000int,
                        ;
                        assert((sales_units(self.sales@, id_i, now as int, 14) - sales_units(
                            self.sales@,
                            id_i,
                            now as int,
                            7,
                        )) * sales_count(self.sales@, id_i, now as int, 7) <= (0x80000000int
                            * 0x80000000int) * 0x80000000int) by (nonlinear_arith)
                            requires
                                0 <= sales_units(self.sales@, id_i, now as int, 14)
                                    - sales_units(self.sales@, id_i, now as int, 7)
                                    <= 0x80000000int * 0x80000000int,
                                0 <= sales_count(self.sales@, id_i, now as int, 7)
                                    <= 0x80000000int,
                        ;
                    }
                    let up = cnt7 > 0 && cnt_prev > 0 && units7 * (cnt_prev as u128)
                        > units_prev * (cnt7 as u128);
                    let row = SalesVelocity {
                        car_id: c.car_id.duplicate(),
                        brand: c.brand.clone(),
                        model: c.model.clone(),
                        avg_daily_sales_milli: avg_milli,
                        last_30_days_sales: cnt30 as i64,
                        last_7_days_sales: cnt7 as i64,
                        trend_direction: if up {
                            String::from_str("UP")
                        } else {
                            String::from_str("DOWN")
                        },
                    };
                    pairs.push((-avg_milli, row));
                }
            }
            i += 1;
        }
        proof {
            lemma_filter_seq_take_all(self.cars@, p);
        }
        let sorted = sort_pairs(pairs);
        let mut rows: Vec<SalesVelocity> = Vec::new();
        let ghost sorted_view = sorted@;
        let mut v = sorted;
        let n0 = v.len();
        let mut k: usize = 0;
        while v.len() > 0
            invariant
                sorted_view.len() == n0,
                k <= sorted_view.len(),
                v@ == sorted_view.skip(k as int),
                rows@.len() == k,
                forall|k2: int| 0 <= k2 < k ==> #[trigger] rows@[k2] == sorted_view[k2].1,
            decreases v@.len(),
        {
            proof {
                assert(sorted_view.skip(k as int).len() == sorted_view.len() - k);
            }
            let x = v.remove(0);
            proof {
                assert(k < sorted_view.len());
                assert(x == sorted_view[k as int]);
                assert(v@ =~= sorted_view.skip(k as int + 1));
            }
            rows.push(x.1);
            k += 1;
        }
        proof {
            assert(rows@ =~= sorted_view.map_values(|y: (i64, SalesVelocity)| y.1));
        }
        Ok(rows)
    }
}

/// A shorter window's count and units never exceed a longer one's.
proof fn lemma_window_monotone(
    sales: Seq<SaleRecord>,
    id: Seq<char>,
    now: int,
    d1: int,
    d2: int,
)
    requires
        0 < d1 <= d2,
        forall|j: int| 0 <= j < sales.len() ==> (#[trigger] sales[j]).quantity >= 0,
    ensures
        sales_count(sales, id, now, d1) <= sales_count(sales, id, now, d2),
        sales_units(sales, id, now, d1) <= sales_units(sales, id, now, d2),
    decreases sales.len(),
{
    if sales.len() > 0 {
        let d = sales.drop_last();
        assert forall|j: int| 0 <= j < d.len() implies (#[trigger] d[j]).quantity >= 0 by {
            assert(d[j] == sales[j]);
        }
        lemma_window_monotone(d, id, now, d1, d2);
        assert(sale_in_window(sales.last(), id, now, d1) ==> sale_in_window(
            sales.last(),
            id,
            now,
            d2,
        ));
    }
}

/// Window sums are non-negative and bounded by the table size.
proof fn lemma_window_bounds(sales: Seq<SaleRecord>, id: Seq<char>, now: int, d1: int)
    requires
        0 < d1,
        forall|j: int|
            0 <= j < sales.len() ==> 0 <= (#[trigger] sales[j]).quantity < 0x80000000int,
    ensures
        0 <= sales_count(sales, id, now, d1) <= sales.len(),
        0 <= sales_units(sales, id, now, d1) <= sales.len() * 0x80000000int,
{
    let gc = |r: SaleRecord|
        if sale_in_window(r, id, now, d1) {
            1int
        } else {
            0
        };
    let gu = |r: SaleRecord|
        if sale_in_window(r, id, now, d1) {
            r.quantity as int
        } else {
            0
        };
    assert forall|j: int| 0 <= j < sales.len() implies 0 <= #[trigger] gc(sales[j]) <= 1 by {}
    assert forall|j: int|
        0 <= j < sales.len() implies 0 <= #[trigger] gu(sales[j]) <= 0x80000000int by {}
    crate::store::lemma_sum_over_bound(sales, gc, 1);
    crate::store::lemma_sum_over_bound(sales, gu, 0x80000000int);
    assert(sales.len() * 1 == sales.len()) by (nonlinear_arith);
}

} // verus!
