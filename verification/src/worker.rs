//! The expiry worker: on each tick it expires every overdue pending
//! reservation, restoring the held quantity to the car and waking a
//! reserved car back to available, and then rolls the live counters up
//! into the hourly metrics history. Both tasks are idempotent.

use crate::errors::AppError;
use crate::models::CarEntity;
use crate::models::CarStatus;
use crate::models::MetricsRow;
use crate::models::Reservation;
use crate::models::ReservationStatus;
use crate::store::InventoryStore;
use crate::store::car_live;
use crate::store::counts_pending;
use crate::store::lemma_refs_ok_reservations_changed;
use crate::store::lemma_sum_over_nonneg;
use crate::store::lemma_sum_over_pointwise_le;
use crate::store::lemma_sum_over_prefix_bound;
use crate::store::lemma_sum_over_take_all;
use crate::store::lemma_sum_over_take_step;
use crate::store::pending_sum;
use crate::store::reservations_evolve_ok;
use crate::store::stock_covers_pending;
use crate::store::store_wf;
use crate::store::sum_over;
use crate::store::unchanged;
use vstd::prelude::*;

verus! {

/// A reservation the next tick will expire: still pending, already past
/// its expiry.
pub open spec fn expiring(r: Reservation, now: int) -> bool {
    r.status == ReservationStatus::Pending && r.expires_at < now
}

/// The total quantity the tick restores to car `id`.
pub open spec fn expiring_sum(rs: Seq<Reservation>, id: Seq<char>, now: int) -> int {
    sum_over(
        rs,
        |r: Reservation|
            if expiring(r, now) && r.car_id@ == id {
                r.quantity as int
            } else {
                0
            },
    )
}

/// How many reservations the tick expires.
pub open spec fn expired_count(rs: Seq<Reservation>, now: int) -> int {
    sum_over(
        rs,
        |r: Reservation|
            if expiring(r, now) {
                1int
            } else {
                0
            },
    )
}

/// When exactly one reservation in the table both expires now and names
/// car `id`, the quantity the tick restores to that car is exactly that
/// reservation's quantity — no more, no less.
pub proof fn lemma_expiring_sum_single(rs: Seq<Reservation>, id: Seq<char>, now: int, k: int)
    requires
        0 <= k < rs.len(),
        expiring(rs[k], now) && rs[k].car_id@ == id,
        forall|j: int|
            0 <= j < rs.len() && j != k ==> !(expiring(#[trigger] rs[j], now) && rs[j].car_id@
                == id),
    ensures
        expiring_sum(rs, id, now) == rs[k].quantity,
    decreases rs.len(),
{
    let f = |r: Reservation|
        if expiring(r, now) && r.car_id@ == id {
            r.quantity as int
        } else {
            0
        };
    if k == rs.len() - 1 {
        let d = rs.drop_last();
        assert forall|j: int| 0 <= j < d.len() implies (#[trigger] f(d[j])) == 0 by {
            assert(d[j] == rs[j]);
        }
        lemma_expiring_sum_zero(d, id, now);
    } else {
        let d = rs.drop_last();
        assert forall|j: int|
            0 <= j < d.len() && j != k implies !(expiring(#[trigger] d[j], now) && d[j].car_id@
                == id) by {
            assert(d[j] == rs[j]);
        }
        assert(d[k] == rs[k]);
        lemma_expiring_sum_single(d, id, now, k);
        assert(f(rs.last()) == 0);
    }
}

/// A table in which no reservation both expires now and names car `id`
/// restores nothing to it.
pub proof fn lemma_expiring_sum_zero(rs: Seq<Reservation>, id: Seq<char>, now: int)
    requires
        forall|j: int|
            0 <= j < rs.len() ==> !(expiring(#[trigger] rs[j], now) && rs[j].car_id@ == id),
    ensures
        expiring_sum(rs, id, now) == 0,
    decreases rs.len(),
{
    if rs.len() > 0 {
        let d = rs.drop_last();
        assert forall|j: int|
            0 <= j < d.len() implies !(expiring(#[trigger] d[j], now) && d[j].car_id@ == id) by {
            assert(d[j] == rs[j]);
        }
        lemma_expiring_sum_zero(d, id, now);
    }
}

/// The tick fits in machine integers: every car's restored stock stays in
/// range, and a touched car's version can still rise.
pub open spec fn can_expire(s: InventoryStore, now: int) -> bool {
    forall|j: int|
        0 <= j < s.cars@.len() ==> {
            let ex = expiring_sum(s.reservations@, (#[trigger] s.cars@[j]).car_id@, now);
            &&& s.cars@[j].quantity_in_stock + ex <= i32::MAX
            &&& (ex > 0 ==> s.cars@[j].version < i64::MAX)
        }
}

/// What one tick does to a car row: a car owed nothing is untouched; any
/// other gets the expired quantity back, a version bump, a fresh
/// `updated_at`, and wakes from reserved to available when stock is
/// positive again.
pub open spec fn car_after_tick(new: CarEntity, old_c: CarEntity, ex: int, now: int) -> bool {
    if ex > 0 {
        new == (CarEntity {
            quantity_in_stock: (old_c.quantity_in_stock + ex) as i32,
            status: (if old_c.status == CarStatus::Reserved && old_c.quantity_in_stock + ex > 0 {
                CarStatus::Available
            } else {
                old_c.status
            }),
            version: (old_c.version + 1) as i64,
            updated_at: now as i64,
            ..old_c
        })
    } else {
        new == old_c
    }
}

/// What one tick does to a reservation row.
pub open spec fn reservation_after_tick(new: Reservation, old_r: Reservation, now: int) -> bool {
    if expiring(old_r, now) {
        new == (Reservation {
            status: ReservationStatus::Expired,
            updated_at: now as i64,
            ..old_r
        })
    } else {
        new == old_r
    }
}

impl InventoryStore {
    /// Sums the quantity the tick would restore to one car, saturating at
    /// 2^31.
    #[verifier::loop_isolation(false)]
    fn expiring_quantity_capped(&self, id: &str, now: i64) -> (r: i64)
        requires
            forall|j: int|
                0 <= j < self.reservations@.len() ==> (
                #[trigger] self.reservations@[j]).quantity >= 0,
        ensures
            r == (if expiring_sum(self.reservations@, id@, now as int) <= 0x80000000int {
                expiring_sum(self.reservations@, id@, now as int)
            } else {
                0x80000000int
            }),
            0 <= r <= 0x80000000,
    {
        let ghost f = |r: Reservation|
            if expiring(r, now as int) && r.car_id@ == id@ {
                r.quantity as int
            } else {
                0
            };
        proof {
            assert forall|j: int|
                0 <= j < self.reservations@.len() implies #[trigger] f(
                self.reservations@[j],
            ) >= 0 by {}
            lemma_sum_over_nonneg(self.reservations@, f);
        }
        let n = self.reservations.len();
        let mut i: usize = 0;
        let mut acc: i64 = 0;
        while i < n
            invariant
                i <= n,
                n == self.reservations@.len(),
                acc == (if sum_over(self.reservations@.take(i as int), f) <= 0x80000000int {
                    sum_over(self.reservations@.take(i as int), f)
                } else {
                    0x80000000int
                }),
                0 <= acc <= 0x80000000,
            decreases n - i,
        {
            let rsv = &self.reservations[i];
            proof {
                lemma_sum_over_take_step(self.reservations@, f, i as int);
                lemma_sum_over_prefix_bound(self.reservations@, f, i as int);
            }
            let hit = rsv.status == ReservationStatus::Pending && rsv.expires_at < now
                && crate::textutil::str_eq(rsv.car_id.as_str(), id);
            if hit && acc < 0x80000000 {
                acc = acc + rsv.quantity as i64;
                if acc > 0x80000000 {
                    acc = 0x80000000;
                }
            }
            i += 1;
        }
        proof {
            lemma_sum_over_take_all(self.reservations@, f);
        }
        acc
    }

    /// Expires every overdue pending reservation in one pass: each such row
    /// becomes expired, its quantity returns to its car's stock, and a
    /// reserved car with stock again becomes available. Returns how many
    /// rows expired. When the restored stock of some car would not fit,
    /// nothing changes and the failure is reported.
    #[verifier::loop_isolation(false)]
    pub fn process_expired_reservations(&mut self, now: i64) -> (r: Result<u64, AppError>)
        requires
            store_wf(*old(self)),
            now >= 0,
        ensures
            store_wf(*final(self)),
            reservations_evolve_ok(old(self).reservations@, final(self).reservations@),
            final(self).warehouses@ == old(self).warehouses@,
            final(self).stock_locations@ == old(self).stock_locations@,
            final(self).transfers@ == old(self).transfers@,
            final(self).sales@ == old(self).sales@,
            final(self).metrics_history@ == old(self).metrics_history@,
            forall|t: int|
                stock_covers_pending(*old(self), t) ==> stock_covers_pending(*final(self), t),
            match r {
                Ok(count) => {
                    &&& can_expire(*old(self), now as int)
                    &&& count == expired_count(old(self).reservations@, now as int)
                    &&& final(self).cars@.len() == old(self).cars@.len()
                    &&& forall|j: int|
                        0 <= j < old(self).cars@.len() ==> car_after_tick(
                            #[trigger] final(self).cars@[j],
                            old(self).cars@[j],
                            expiring_sum(
                                old(self).reservations@,
                                old(self).cars@[j].car_id@,
                                now as int,
                            ),
                            now as int,
                        )
                    &&& final(self).reservations@.len() == old(self).reservations@.len()
                    &&& forall|k: int|
                        0 <= k < old(self).reservations@.len() ==> reservation_after_tick(
                            #[trigger] final(self).reservations@[k],
                            old(self).reservations@[k],
                            now as int,
                        )
                },
                Err(e) => {
                    &&& unchanged(*old(self), *final(self))
                    &&& !can_expire(*old(self), now as int)
                    &&& e matches AppError::DatabaseError(_)
                },
            },
    {
        let ghost pre = *self;
        let ncars = self.cars.len();
        let mut j: usize = 0;
        while j < ncars
            invariant
                j <= ncars,
                ncars == self.cars@.len(),
                *self == pre,
                forall|j2: int|
                    0 <= j2 < j ==> {
                        let ex = expiring_sum(
                            pre.reservations@,
                            (#[trigger] pre.cars@[j2]).car_id@,
                            now as int,
                        );
                        &&& pre.cars@[j2].quantity_in_stock + ex <= i32::MAX
                        &&& (ex > 0 ==> pre.cars@[j2].version < i64::MAX)
                    },
            decreases ncars - j,
        {
            let id = String::from_str(self.cars[j].car_id.as_str());
            let ex = self.expiring_quantity_capped(id.as_str(), now);
            let stock = self.cars[j].quantity_in_stock;
            if stock as i64 > i32::MAX as i64 - ex {
                proof {
                    let fullsum = expiring_sum(pre.reservations@, pre.cars@[j as int].car_id@,
                        now as int);
                    if fullsum > 0x80000000int {
                        assert(pre.cars@[j as int].quantity_in_stock + fullsum > i32::MAX);
                    }
                    assert(!can_expire(pre, now as int));
                }
                return Err(AppError::DatabaseError(String::from_str("integer out of range")));
            }
            if ex > 0 && self.cars[j].version == i64::MAX {
                proof {
                    assert(!can_expire(pre, now as int));
                }
                return Err(AppError::DatabaseError(String::from_str("bigint out of range")));
            }
            j += 1;
        }
        assert(can_expire(pre, now as int));
        let mut j: usize = 0;
        while j < ncars
            invariant
                j <= ncars,
                ncars == self.cars@.len(),
                self.cars@.len() == pre.cars@.len(),
                self.reservations@ == pre.reservations@,
                self.warehouses@ == pre.warehouses@,
                self.stock_locations@ == pre.stock_locations@,
                self.transfers@ == pre.transfers@,
                self.sales@ == pre.sales@,
                self.metrics_history@ == pre.metrics_history@,
                can_expire(pre, now as int),
                forall|j2: int|
                    0 <= j2 < j ==> car_after_tick(
                        #[trigger] self.cars@[j2],
                        pre.cars@[j2],
                        expiring_sum(pre.reservations@, pre.cars@[j2].car_id@, now as int),
                        now as int,
                    ),
                forall|j2: int| j <= j2 < ncars ==> #[trigger] self.cars@[j2] == pre.cars@[j2],
            decreases ncars - j,
        {
            let id = String::from_str(self.cars[j].car_id.as_str());
            let ex = self.expiring_quantity_capped(id.as_str(), now);
            proof {
                let fullsum = expiring_sum(pre.reservations@, pre.cars@[j as int].car_id@,
                    now as int);
                assert(pre.cars@[j as int].quantity_in_stock + fullsum <= i32::MAX);
                if fullsum > 0x80000000int {
                    assert(pre.cars@[j as int].quantity_in_stock + fullsum > i32::MAX);
                }
            }
            if ex > 0 {
                let c = &mut self.cars[j];
                let new_stock = c.quantity_in_stock + ex as i32;
                c.quantity_in_stock = new_stock;
                if c.status == CarStatus::Reserved && new_stock > 0 {
                    c.status = CarStatus::Available;
                }
                c.version = c.version + 1;
                c.updated_at = now;
            }
            j += 1;
        }
        let ghost mid = *self;
        let nres = self.reservations.len();
        let mut count: u64 = 0;
        let ghost g = |r: Reservation|
            if expiring(r, now as int) {
                1int
            } else {
                0
            };
        let mut k: usize = 0;
        while k < nres
            invariant
                k <= nres,
                nres == self.reservations@.len(),
                self.reservations@.len() == pre.reservations@.len(),
                self.cars@ == mid.cars@,
                self.warehouses@ == pre.warehouses@,
                self.stock_locations@ == pre.stock_locations@,
                self.transfers@ == pre.transfers@,
                self.sales@ == pre.sales@,
                self.metrics_history@ == pre.metrics_history@,
                count <= k,
                count == sum_over(pre.reservations@.take(k as int), g),
                forall|k2: int|
                    0 <= k2 < k ==> reservation_after_tick(
                        #[trigger] self.reservations@[k2],
                        pre.reservations@[k2],
                        now as int,
                    ),
                forall|k2: int|
                    k <= k2 < nres ==> #[trigger] self.reservations@[k2]
                        == pre.reservations@[k2],
            decreases nres - k,
        {
            proof {
                lemma_sum_over_take_step(pre.reservations@, g, k as int);
            }
            let is_expiring = self.reservations[k].status == ReservationStatus::Pending
                && self.reservations[k].expires_at < now;
            if is_expiring {
                let rsv = &mut self.reservations[k];
                rsv.status = ReservationStatus::Expired;
                rsv.updated_at = now;
                count = count + 1;
            }
            k += 1;
        }
        proof {
            lemma_sum_over_take_all(pre.reservations@, g);
            let posts = *self;
            assert forall|a: int, b: int|
                0 <= a < b < posts.reservations@.len() implies posts.reservations@[a].id
                != posts.reservations@[b].id by {
                assert(pre.reservations@[a].id != pre.reservations@[b].id);
                assert(reservation_after_tick(posts.reservations@[a], pre.reservations@[a],
                    now as int));
                assert(reservation_after_tick(posts.reservations@[b], pre.reservations@[b],
                    now as int));
            }
            assert forall|a: int, b: int|
                0 <= a < b < posts.cars@.len() implies posts.cars@[a].car_id@ != posts.cars@[
                b
            ].car_id@ by {
                assert(pre.cars@[a].car_id@ != pre.cars@[b].car_id@);
                assert(car_after_tick(posts.cars@[a], pre.cars@[a], expiring_sum(
                    pre.reservations@, pre.cars@[a].car_id@, now as int), now as int));
                assert(car_after_tick(posts.cars@[b], pre.cars@[b], expiring_sum(
                    pre.reservations@, pre.cars@[b].car_id@, now as int), now as int));
            }
            assert forall|k2: int|
                0 <= k2 < posts.reservations@.len() implies exists|j2: int|
                    0 <= j2 < pre.reservations@.len() && (
                    #[trigger] posts.reservations@[k2]).car_id@ == pre.reservations@[
                        j2
                    ].car_id@ by {
                assert(reservation_after_tick(posts.reservations@[k2], pre.reservations@[k2],
                    now as int));
                assert(posts.reservations@[k2].car_id@ == pre.reservations@[k2].car_id@);
            }
            let pre2 = InventoryStore { cars: posts.cars, ..pre };
            assert(pre2.cars@ == posts.cars@ && pre2.reservations@ == pre.reservations@);
            assert forall|k2: int| 0 <= k2 < pre2.reservations@.len() implies exists|j2: int|
                0 <= j2 < pre2.cars@.len() && (#[trigger] pre2.reservations@[k2]).car_id@
                    == pre2.cars@[j2].car_id@ by {
                let j0 = choose|j2: int|
                    0 <= j2 < pre.cars@.len() && pre.reservations@[k2].car_id@ == pre.cars@[
                        j2
                    ].car_id@;
                assert(car_after_tick(posts.cars@[j0], pre.cars@[j0], expiring_sum(
                    pre.reservations@, pre.cars@[j0].car_id@, now as int), now as int));
                assert(posts.cars@[j0].car_id@ == pre.cars@[j0].car_id@);
            }
            lemma_refs_ok_reservations_changed(pre2, posts);
            assert forall|t: int| stock_covers_pending(pre, t) implies stock_covers_pending(
                posts,
                t,
            ) by {
                assert forall|j2: int|
                    0 <= j2 < posts.cars@.len() && car_live(#[trigger] posts.cars@[j2]) implies
                    posts.cars@[j2].quantity_in_stock >= pending_sum(
                    posts.reservations@,
                    posts.cars@[j2].car_id@,
                    t,
                ) by {
                    let oldcar = pre.cars@[j2];
                    let idj = oldcar.car_id@;
                    let ex = expiring_sum(pre.reservations@, idj, now as int);
                    assert(car_after_tick(posts.cars@[j2], oldcar, ex, now as int));
                    assert(posts.cars@[j2].car_id@ == idj);
                    assert(car_live(oldcar));
                    let fj = |r: Reservation|
                        if counts_pending(r, idj, t) {
                            r.quantity as int
                        } else {
                            0
                        };
                    assert forall|k2: int|
                        0 <= k2 < posts.reservations@.len() implies #[trigger] fj(
                        posts.reservations@[k2],
                    ) <= fj(pre.reservations@[k2]) by {
                        assert(reservation_after_tick(posts.reservations@[k2],
                            pre.reservations@[k2], now as int));
                    }
                    lemma_sum_over_pointwise_le(posts.reservations@, pre.reservations@, fj);
                    assert(oldcar.quantity_in_stock >= pending_sum(pre.reservations@, idj, t));
                    assert forall|k2: int|
                        0 <= k2 < pre.reservations@.len() implies #[trigger] fj(
                        pre.reservations@[k2],
                    ) >= 0 by {
                        assert(pre.reservations@[k2].quantity >= 1);
                    }
                    lemma_sum_over_nonneg(pre.reservations@, fj);
                    assert(posts.cars@[j2].quantity_in_stock >= oldcar.quantity_in_stock);
                }
            }
        }
        Ok(count)
    }
}

/// A reservation counted as active by the rollup: pending and not yet
/// expired.
pub open spec fn counts_active(r: Reservation, now: int) -> bool {
    r.status == ReservationStatus::Pending && r.expires_at > now
}

/// The number of live cars.
pub open spec fn live_car_count(cars: Seq<CarEntity>) -> int {
    sum_over(
        cars,
        |c: CarEntity|
            if car_live(c) {
                1int
            } else {
                0
            },
    )
}

/// The total inventory value of the live cars, in cents.
pub open spec fn total_value_cents(cars: Seq<CarEntity>) -> int {
    sum_over(
        cars,
        |c: CarEntity|
            if car_live(c) {
                c.price_cents * c.quantity_in_stock
            } else {
                0
            },
    )
}

/// The number of active reservations.
pub open spec fn active_reservation_count(rs: Seq<Reservation>, now: int) -> int {
    sum_over(
        rs,
        |r: Reservation|
            if counts_active(r, now) {
                1int
            } else {
                0
            },
    )
}

/// The units held by active reservations.
pub open spec fn reserved_unit_sum(rs: Seq<Reservation>, now: int) -> int {
    sum_over(
        rs,
        |r: Reservation|
            if counts_active(r, now) {
                r.quantity as int
            } else {
                0
            },
    )
}

/// The number of live cars at or under their reorder point.
pub open spec fn low_stock_count(cars: Seq<CarEntity>) -> int {
    sum_over(
        cars,
        |c: CarEntity|
            if car_live(c) && c.quantity_in_stock <= c.reorder_point {
                1int
            } else {
                0
            },
    )
}

/// The value of the available (unreserved) stock of the live cars.
pub open spec fn available_value_cents(s: InventoryStore, now: int) -> int {
    sum_over(
        s.cars@,
        |c: CarEntity|
            if car_live(c) {
                c.price_cents * (c.quantity_in_stock - pending_sum(s.reservations@, c.car_id@, now))
            } else {
                0
            },
    )
}

impl InventoryStore {
    /// Upserts the hourly rollup row for the hour containing `now`: live
    /// car count and value, active reservation count and units, low-stock
    /// count and available-stock value. On a hash conflict with an earlier
    /// run of the same hour the row is overwritten.
    #[verifier::loop_isolation(false)]
    #[verifier::rlimit(60)]
    pub fn update_inventory_metrics(&mut self, now: i64) -> (r: Result<(), AppError>)
        requires
            store_wf(*old(self)),
            stock_covers_pending(*old(self), now as int),
            now >= 0,
            old(self).cars@.len() <= i64::MAX,
            old(self).reservations@.len() <= i64::MAX,
        ensures
            store_wf(*final(self)),
            final(self).cars@ == old(self).cars@,
            final(self).reservations@ == old(self).reservations@,
            final(self).warehouses@ == old(self).warehouses@,
            final(self).stock_locations@ == old(self).stock_locations@,
            final(self).transfers@ == old(self).transfers@,
            final(self).sales@ == old(self).sales@,
            forall|t: int|
                stock_covers_pending(*old(self), t) ==> stock_covers_pending(*final(self), t),
            match r {
                Ok(()) => {
                    &&& total_value_cents(old(self).cars@) <= u128::MAX
                    &&& available_value_cents(*old(self), now as int) <= u128::MAX
                    &&& reserved_unit_sum(old(self).reservations@, now as int) <= i64::MAX
                    &&& {
                        let hour = now as int - (now as int) % 3600;
                        let mi = old(self).metrics_row_index(hour);
                        let row = final(self).metrics_history@[(if mi >= 0 {
                            mi
                        } else {
                            old(self).metrics_history@.len() as int
                        })];
                        &&& (if mi >= 0 {
                            final(self).metrics_history@ == old(self).metrics_history@.update(
                                mi,
                                row,
                            )
                        } else {
                            final(self).metrics_history@ == old(self).metrics_history@.push(row)
                        })
                        &&& row.metric_hour == hour
                        &&& row.total_cars == live_car_count(old(self).cars@)
                        &&& row.total_value_cents == total_value_cents(old(self).cars@)
                        &&& row.active_reservations == active_reservation_count(
                            old(self).reservations@,
                            now as int,
                        )
                        &&& row.reserved_units == reserved_unit_sum(
                            old(self).reservations@,
                            now as int,
                        )
                        &&& row.low_stock_count == low_stock_count(old(self).cars@)
                        &&& row.available_stock_value_cents == available_value_cents(
                            *old(self),
                            now as int,
                        )
                    }
                },
                Err(e) => {
                    &&& unchanged(*old(self), *final(self))
                    &&& e matches AppError::DatabaseError(_)
                    &&& (total_value_cents(old(self).cars@) > u128::MAX
                        || available_value_cents(*old(self), now as int) > u128::MAX
                        || reserved_unit_sum(old(self).reservations@, now as int) > i64::MAX)
                },
            },
    {
        let ghost pre = *self;
        proof {
            assert forall|k2: int|
                0 <= k2 < pre.reservations@.len() implies (
            #[trigger] pre.reservations@[k2]).quantity >= 0 by {
                assert(crate::ids::valid_car_id(pre.reservations@[k2].car_id@));
            }
        }
        let ncars = self.cars.len();
        let nres = self.reservations.len();

        let ghost f_live = |c: CarEntity|
            if car_live(c) {
                1int
            } else {
                0
            };
        let ghost f_value = |c: CarEntity|
            if car_live(c) {
                c.price_cents * c.quantity_in_stock
            } else {
                0
            };
        let ghost f_low = |c: CarEntity|
            if car_live(c) && c.quantity_in_stock <= c.reorder_point {
                1int
            } else {
                0
            };
        let ghost f_avail = |c: CarEntity|
            if car_live(c) {
                c.price_cents * (c.quantity_in_stock - pending_sum(
                    pre.reservations@,
                    c.car_id@,
                    now as int,
                ))
            } else {
                0
            };
        proof {
            assert forall|j2: int|
                0 <= j2 < pre.cars@.len() implies #[trigger] f_value(pre.cars@[j2]) >= 0 by {
                assert(crate::ids::valid_car_id(pre.cars@[j2].car_id@));
            }
            assert forall|j2: int|
                0 <= j2 < pre.cars@.len() implies #[trigger] f_avail(pre.cars@[j2]) >= 0 by {
                assert(crate::ids::valid_car_id(pre.cars@[j2].car_id@));
                if car_live(pre.cars@[j2]) {
                    assert(pre.cars@[j2].quantity_in_stock >= pending_sum(
                        pre.reservations@,
                        pre.cars@[j2].car_id@,
                        now as int,
                    ));
                }
            }
        }
        let mut total_cars: i64 = 0;
        let mut low_stock: i64 = 0;
        let mut value_acc: u128 = 0;
        let mut avail_acc: u128 = 0;
        let mut j: usize = 0;
        while j < ncars
            invariant
                j <= ncars,
                ncars == self.cars@.len(),
                *self == pre,
                ncars <= i64::MAX,
                0 <= total_cars <= j,
                0 <= low_stock <= j,
                total_cars == sum_over(pre.cars@.take(j as int), f_live),
                low_stock == sum_over(pre.cars@.take(j as int), f_low),
                value_acc == sum_over(pre.cars@.take(j as int), f_value),
                avail_acc == sum_over(pre.cars@.take(j as int), f_avail),
            decreases ncars - j,
        {
            proof {
                lemma_sum_over_take_step(pre.cars@, f_live, j as int);
                lemma_sum_over_take_step(pre.cars@, f_low, j as int);
                lemma_sum_over_take_step(pre.cars@, f_value, j as int);
                lemma_sum_over_take_step(pre.cars@, f_avail, j as int);
                assert(crate::ids::valid_car_id(pre.cars@[j as int].car_id@));
            }
            let c = &self.cars[j];
            let live = match c.deleted_at {
                Option::None => true,
                Option::Some(_) => false,
            };
            if live {
                total_cars = total_cars + 1;
                if c.quantity_in_stock <= c.reorder_point {
                    low_stock = low_stock + 1;
                }
                proof {
                    assert((pre.cars@[j as int].price_cents as int) * (pre.cars@[
                        j as int
                    ].quantity_in_stock as int) < 0x800000000000000000000000int)
                        by (nonlinear_arith)
                        requires
                            0 <= pre.cars@[j as int].price_cents < 0x10000000000000000int,
                            0 <= pre.cars@[j as int].quantity_in_stock < 0x80000000int,
                    ;
                }
                let term: u128 = (c.price_cents as u128) * (c.quantity_in_stock as u128);
                if value_acc > u128::MAX - term {
                    proof {
                        lemma_sum_over_prefix_bound(pre.cars@, f_value, j as int + 1);
                    }
                    return Err(AppError::DatabaseError(String::from_str("numeric overflow")));
                }
                value_acc = value_acc + term;
                proof {
                    assert(car_live(pre.cars@[j as int]));
                    assert(pre.cars@[j as int].quantity_in_stock >= pending_sum(
                        pre.reservations@,
                        pre.cars@[j as int].car_id@,
                        now as int,
                    ));
                    let fj = |r: Reservation|
                        if counts_pending(r, pre.cars@[j as int].car_id@, now as int) {
                            r.quantity as int
                        } else {
                            0
                        };
                    assert forall|k2: int|
                        0 <= k2 < pre.reservations@.len() implies #[trigger] fj(
                        pre.reservations@[k2],
                    ) >= 0 by {}
                    lemma_sum_over_nonneg(pre.reservations@, fj);
                }
                let pending = self.pending_quantity(c.car_id.as_str(), now);
                let avail = c.quantity_in_stock as i64 - pending;
                proof {
                    assert((pre.cars@[j as int].price_cents as int) * avail
                        < 0x800000000000000000000000int) by (nonlinear_arith)
                        requires
                            0 <= pre.cars@[j as int].price_cents < 0x10000000000000000int,
                            0 <= avail < 0x80000000int,
                    ;
                }
                let aterm: u128 = (c.price_cents as u128) * (avail as u128);
                if avail_acc > u128::MAX - aterm {
                    proof {
                        lemma_sum_over_prefix_bound(pre.cars@, f_avail, j as int + 1);
                    }
                    return Err(AppError::DatabaseError(String::from_str("numeric overflow")));
                }
                avail_acc = avail_acc + aterm;
            }
            j += 1;
        }
        proof {
            lemma_sum_over_take_all(pre.cars@, f_live);
            lemma_sum_over_take_all(pre.cars@, f_low);
            lemma_sum_over_take_all(pre.cars@, f_value);
            lemma_sum_over_take_all(pre.cars@, f_avail);
        }

        let ghost g_active = |r: Reservation|
            if counts_active(r, now as int) {
                1int
            } else {
                0
            };
        let ghost g_units = |r: Reservation|
            if counts_active(r, now as int) {
                r.quantity as int
            } else {
                0
            };
        proof {
            assert forall|k2: int|
                0 <= k2 < pre.reservations@.len() implies #[trigger] g_units(
                pre.reservations@[k2],
            ) >= 0 by {}
        }
        let mut active: i64 = 0;
        let mut units_acc: u128 = 0;
        let mut k: usize = 0;
        while k < nres
            invariant
                k <= nres,
                nres == self.reservations@.len(),
                *self == pre,
                nres <= i64::MAX,
                0 <= active <= k,
                active == sum_over(pre.reservations@.take(k as int), g_active),
                units_acc == (if sum_over(pre.reservations@.take(k as int), g_units)
                    <= 0x8000000000000000int {
                    sum_over(pre.reservations@.take(k as int), g_units)
                } else {
                    0x8000000000000000int
                }),
                units_acc <= 0x8000000000000000,
            decreases nres - k,
        {
            proof {
                lemma_sum_over_take_step(pre.reservations@, g_active, k as int);
                lemma_sum_over_take_step(pre.reservations@, g_units, k as int);
                lemma_sum_over_prefix_bound(pre.reservations@, g_units, k as int);
                assert(crate::ids::valid_car_id(pre.reservations@[k as int].car_id@));
            }
            let rsv = &self.reservations[k];
            if rsv.status == ReservationStatus::Pending && rsv.expires_at > now {
                active = active + 1;
                if units_acc < 0x8000000000000000 {
                    units_acc = units_acc + rsv.quantity as u128;
                    if units_acc > 0x8000000000000000 {
                        units_acc = 0x8000000000000000;
                    }
                }
            }
            k += 1;
        }
        proof {
            lemma_sum_over_take_all(pre.reservations@, g_active);
            lemma_sum_over_take_all(pre.reservations@, g_units);
        }
        if units_acc > i64::MAX as u128 {
            return Err(AppError::DatabaseError(String::from_str("bigint out of range")));
        }
        let reserved_units = units_acc as i64;

        let hour = now - now % 3600;
        let row = MetricsRow {
            metric_hour: hour,
            total_cars,
            total_value_cents: value_acc,
            active_reservations: active,
            reserved_units,
            low_stock_count: low_stock,
            available_stock_value_cents: avail_acc,
        };
        match self.find_metrics_row(hour) {
            Some(mi) => {
                self.metrics_history[mi] = row;
                proof {
                    let posts = *self;
                    assert forall|a: int, b: int|
                        0 <= a < b < posts.metrics_history@.len() implies posts.metrics_history@[
                        a
                    ].metric_hour != posts.metrics_history@[b].metric_hour by {
                        assert(pre.metrics_history@[a].metric_hour != pre.metrics_history@[
                            b
                        ].metric_hour);
                    }
                    crate::store::lemma_refs_ok_frame(pre, posts);
                    crate::store::lemma_stock_covers_frame(pre, posts);
                    assert(crate::store::rows_wf(posts));
                    assert(crate::store::keys_unique(posts));
                    assert(store_wf(posts));
                }
            },
            None => {
                self.metrics_history.push(row);
                proof {
                    let posts = *self;
                    assert forall|a: int, b: int|
                        0 <= a < b < posts.metrics_history@.len() implies posts.metrics_history@[
                        a
                    ].metric_hour != posts.metrics_history@[b].metric_hour by {
                        if b < pre.metrics_history@.len() {
                            assert(pre.metrics_history@[a].metric_hour != pre.metrics_history@[
                                b
                            ].metric_hour);
                        }
                    }
                    crate::store::lemma_refs_ok_frame(pre, posts);
                    crate::store::lemma_stock_covers_frame(pre, posts);
                    assert(crate::store::rows_wf(posts));
                    assert(crate::store::keys_unique(posts));
                    assert(store_wf(posts));
                }
            },
        }
        Ok(())
    }

    /// One worker tick: expires overdue reservations, then rolls up the
    /// hourly metrics. A failure in either task leaves the other's work
    /// standing, as each runs in its own transaction.
    pub fn tick(&mut self, now: i64) -> (r: (Result<u64, AppError>, Result<(), AppError>))
        requires
            store_wf(*old(self)),
            stock_covers_pending(*old(self), now as int),
            now >= 0,
            old(self).cars@.len() <= i64::MAX,
            old(self).reservations@.len() <= i64::MAX,
        ensures
            store_wf(*final(self)),
            reservations_evolve_ok(old(self).reservations@, final(self).reservations@),
            final(self).warehouses@ == old(self).warehouses@,
            final(self).stock_locations@ == old(self).stock_locations@,
            final(self).transfers@ == old(self).transfers@,
            final(self).sales@ == old(self).sales@,
            stock_covers_pending(*final(self), now as int),
            match r.0 {
                Ok(count) => {
                    &&& can_expire(*old(self), now as int)
                    &&& count == expired_count(old(self).reservations@, now as int)
                    &&& final(self).cars@.len() == old(self).cars@.len()
                    &&& forall|j: int|
                        0 <= j < old(self).cars@.len() ==> car_after_tick(
                            #[trigger] final(self).cars@[j],
                            old(self).cars@[j],
                            expiring_sum(
                                old(self).reservations@,
                                old(self).cars@[j].car_id@,
                                now as int,
                            ),
                            now as int,
                        )
                    &&& final(self).reservations@.len() == old(self).reservations@.len()
                    &&& forall|k: int|
                        0 <= k < old(self).reservations@.len() ==> reservation_after_tick(
                            #[trigger] final(self).reservations@[k],
                            old(self).reservations@[k],
                            now as int,
                        )
                },
                Err(_) => {
                    &&& final(self).cars@ == old(self).cars@
                    &&& final(self).reservations@ == old(self).reservations@
                    &&& !can_expire(*old(self), now as int)
                },
            },
            match r.1 {
                Ok(()) => ({
                    let hour = now as int - (now as int) % 3600;
                    let mi = old(self).metrics_row_index(hour);
                    let row = final(self).metrics_history@[(if mi >= 0 {
                        mi
                    } else {
                        old(self).metrics_history@.len() as int
                    })];
                    &&& (if mi >= 0 {
                        final(self).metrics_history@ == old(self).metrics_history@.update(
                            mi,
                            row,
                        )
                    } else {
                        final(self).metrics_history@ == old(self).metrics_history@.push(row)
                    })
                    &&& row.metric_hour == hour
                    &&& row.total_cars == live_car_count(final(self).cars@)
                    &&& row.total_value_cents == total_value_cents(final(self).cars@)
                    &&& row.active_reservations == active_reservation_count(
                        final(self).reservations@,
                        now as int,
                    )
                    &&& row.reserved_units == reserved_unit_sum(
                        final(self).reservations@,
                        now as int,
                    )
                    &&& row.low_stock_count == low_stock_count(final(self).cars@)
                    &&& row.available_stock_value_cents == available_value_cents(
                        *final(self),
                        now as int,
                    )
                }),
                Err(_) => final(self).metrics_history@ == old(self).metrics_history@,
            },
    {
        let first = self.process_expired_reservations(now);
        let ghost mid = *self;
        let second = self.update_inventory_metrics(now);
        proof {
            if second is Ok {
                assert(self.cars@ == mid.cars@ && self.reservations@ == mid.reservations@);
                assert(mid.metrics_row_index(now as int - (now as int) % 3600) == old(
                    self,
                ).metrics_row_index(now as int - (now as int) % 3600));
            }
        }
        (first, second)
    }
}



} // verus!
