//! The sale path: confirming a pending reservation, deducting the sold
//! quantity from the car's stock (marking it sold when stock reaches
//! zero), and appending the sale to the history, all as one step.

use crate::clock::clamped_now;
use crate::errors::AppError;
use crate::ids::CarId;
use crate::models::CarEntity;
use crate::models::CarStatus;
use crate::models::Reservation;
use crate::models::ReservationStatus;
use crate::models::SaleRecord;
use crate::store::InventoryStore;
use crate::store::car_live;
use crate::store::counts_pending;
use crate::store::lemma_sum_over_update;
use crate::store::pending_sum;
use crate::store::reservations_evolve_ok;
use crate::store::stock_covers_pending;
use crate::store::store_wf;
use crate::store::unchanged;
use crate::uuids::fresh_uuid_u128;
use vstd::prelude::*;

verus! {

/// The receipt a completed sale returns.
pub struct SaleReceipt {
    pub sale_id: u128,
    pub reservation_id: u128,
    pub car_id: CarId,
    pub quantity: i32,
    pub total_price_cents: u128,
}

impl InventoryStore {
    /// Processes a sale under an explicit clock reading and sale identity:
    /// the named reservation must be pending and unexpired; it is
    /// confirmed, the car's stock drops by the reserved quantity (the car
    /// is marked sold at zero), and the sale is recorded.
    #[verifier::rlimit(60)]
    pub fn process_sale_with_id(
        &mut self,
        reservation_id: u128,
        customer_id: String,
        sale_id: u128,
        now: i64,
    ) -> (r: Result<SaleReceipt, AppError>)
        requires
            store_wf(*old(self)),
            now >= 0,
        ensures
            store_wf(*final(self)),
            reservations_evolve_ok(old(self).reservations@, final(self).reservations@),
            final(self).warehouses@ == old(self).warehouses@,
            final(self).stock_locations@ == old(self).stock_locations@,
            final(self).transfers@ == old(self).transfers@,
            final(self).metrics_history@ == old(self).metrics_history@,
            match r {
                Ok(receipt) => {
                    &&& old(self).reservation_index(reservation_id) >= 0
                    &&& {
                        let ri = old(self).reservation_index(reservation_id);
                        let rsv = old(self).reservations@[ri];
                        let ci = old(self).live_car_index(rsv.car_id@);
                        let car = old(self).cars@[ci];
                        &&& rsv.status == ReservationStatus::Pending
                        &&& rsv.expires_at >= now
                        &&& ci >= 0
                        &&& car.quantity_in_stock >= rsv.quantity
                        &&& car.version < i64::MAX
                        &&& final(self).reservations@ == old(self).reservations@.update(
                            ri,
                            final(self).reservations@[ri],
                        )
                        &&& final(self).reservations@[ri] == (Reservation {
                            status: ReservationStatus::Confirmed,
                            updated_at: now,
                            ..rsv
                        })
                        &&& final(self).cars@ == old(self).cars@.update(
                            ci,
                            final(self).cars@[ci],
                        )
                        &&& final(self).cars@[ci] == (CarEntity {
                            quantity_in_stock: (car.quantity_in_stock - rsv.quantity) as i32,
                            status: (if car.quantity_in_stock - rsv.quantity == 0 {
                                CarStatus::Sold
                            } else {
                                car.status
                            }),
                            version: (car.version + 1) as i64,
                            updated_at: now,
                            ..car
                        })
                        &&& final(self).sales@.len() == old(self).sales@.len() + 1
                        &&& final(self).sales@.subrange(0, old(self).sales@.len() as int)
                            == old(self).sales@
                        &&& {
                            let rec = final(self).sales@.last();
                            &&& rec.sale_id == sale_id
                            &&& rec.car_id@ == rsv.car_id@
                            &&& rec.quantity == rsv.quantity
                            &&& rec.price_cents == car.price_cents
                            &&& rec.customer_id == Some(customer_id)
                            &&& rec.sold_at == now
                        }
                        &&& receipt.sale_id == sale_id
                        &&& receipt.reservation_id == reservation_id
                        &&& receipt.car_id@ == rsv.car_id@
                        &&& receipt.quantity == rsv.quantity
                        &&& receipt.total_price_cents == car.price_cents * rsv.quantity
                        &&& (stock_covers_pending(*old(self), now as int) && rsv.expires_at
                            > now ==> stock_covers_pending(*final(self), now as int))
                    }
                },
                Err(e) => {
                    &&& unchanged(*old(self), *final(self))
                    &&& {
                        let ri = old(self).reservation_index(reservation_id);
                        if ri == -1 {
                            e == AppError::ReservationNotFound
                        } else {
                            let rsv = old(self).reservations@[ri];
                            let ci = old(self).live_car_index(rsv.car_id@);
                            if rsv.status != ReservationStatus::Pending {
                                e matches AppError::BusinessRuleViolation(m) && m@
                                    == "Reservation is not pending"@
                            } else if rsv.expires_at < now {
                                e == AppError::ReservationExpired
                            } else if ci == -1 {
                                e == AppError::NotFound
                            } else if old(self).cars@[ci].quantity_in_stock < rsv.quantity {
                                e matches AppError::BusinessRuleViolation(m) && m@
                                    == "Check constraint violation in Car"@
                            } else {
                                old(self).cars@[ci].version == i64::MAX && (e matches
                                AppError::DatabaseError(_))
                            }
                        }
                    }
                },
            },
    {
        let ghost pre = *self;
        let ri = match self.find_reservation(reservation_id) {
            Some(i) => i,
            None => {
                return Err(AppError::ReservationNotFound);
            },
        };
        if !(self.reservations[ri].status == ReservationStatus::Pending) {
            return Err(
                AppError::BusinessRuleViolation(String::from_str("Reservation is not pending")),
            );
        }
        if self.reservations[ri].expires_at < now {
            return Err(AppError::ReservationExpired);
        }
        let car_id_text = String::from_str(self.reservations[ri].car_id.as_str());
        let q = self.reservations[ri].quantity;
        let ci = match self.find_live_car(car_id_text.as_str()) {
            Some(i) => i,
            None => {
                return Err(AppError::NotFound);
            },
        };
        if self.cars[ci].quantity_in_stock < q {
            return Err(
                AppError::BusinessRuleViolation(
                    String::from_str("Check constraint violation in Car"),
                ),
            );
        }
        if self.cars[ci].version == i64::MAX {
            return Err(AppError::DatabaseError(String::from_str("bigint out of range")));
        }
        let price = self.cars[ci].price_cents;
        let rsv = &mut self.reservations[ri];
        rsv.status = ReservationStatus::Confirmed;
        rsv.updated_at = now;
        let car = &mut self.cars[ci];
        let new_stock = car.quantity_in_stock - q;
        car.quantity_in_stock = new_stock;
        if new_stock == 0 {
            car.status = CarStatus::Sold;
        }
        car.version = car.version + 1;
        car.updated_at = now;
        let cid = self.cars[ci].car_id.duplicate();
        let rec = SaleRecord {
            sale_id,
            car_id: cid,
            quantity: q,
            price_cents: price,
            customer_id: Some(customer_id),
            sold_at: now,
        };
        self.sales.push(rec);
        let receipt_cid = self.cars[ci].car_id.duplicate();
        proof {
            assert((price as int) * (q as int) < 0x800000000000000000000000int)
                by (nonlinear_arith)
                requires
                    0 <= price < 0x10000000000000000int,
                    0 <= q < 0x80000000int,
            ;
            let posts = *self;
            let old_r = pre.reservations@[ri as int];
            let old_c = pre.cars@[ci as int];
            assert(posts.sales@.subrange(0, pre.sales@.len() as int) =~= pre.sales@);
            assert forall|a: int, b: int|
                0 <= a < b < posts.reservations@.len() implies posts.reservations@[a].id
                != posts.reservations@[b].id by {
                assert(pre.reservations@[a].id != pre.reservations@[b].id);
            }
            assert forall|a: int, b: int|
                0 <= a < b < posts.cars@.len() implies posts.cars@[a].car_id@ != posts.cars@[
                b
            ].car_id@ by {
                assert(pre.cars@[a].car_id@ != pre.cars@[b].car_id@);
            }
            assert forall|k: int| 0 <= k < posts.reservations@.len() implies exists|j: int|
                0 <= j < posts.cars@.len() && (#[trigger] posts.reservations@[k]).car_id@
                    == posts.cars@[j].car_id@ by {
                let j0 = choose|j: int|
                    0 <= j < pre.cars@.len() && pre.reservations@[k].car_id@ == pre.cars@[
                        j
                    ].car_id@;
                assert(posts.cars@[j0].car_id@ == pre.cars@[j0].car_id@);
            }
            if stock_covers_pending(pre, now as int) && old_r.expires_at > now {
                assert forall|j: int|
                    0 <= j < posts.cars@.len() && car_live(#[trigger] posts.cars@[j]) implies
                    posts.cars@[j].quantity_in_stock >= pending_sum(
                    posts.reservations@,
                    posts.cars@[j].car_id@,
                    now as int,
                ) by {
                    let id_j = posts.cars@[j].car_id@;
                    let fj = |v: Reservation|
                        if counts_pending(v, id_j, now as int) {
                            v.quantity as int
                        } else {
                            0
                        };
                    lemma_sum_over_update(
                        pre.reservations@,
                        fj,
                        ri as int,
                        posts.reservations@[ri as int],
                    );
                    assert(fj(posts.reservations@[ri as int]) == 0);
                    if j != ci as int {
                        assert(posts.cars@[j] == pre.cars@[j]);
                        assert(fj(pre.reservations@[ri as int]) >= 0);
                    } else {
                        assert(id_j == old_r.car_id@);
                        assert(counts_pending(old_r, id_j, now as int));
                        assert(fj(pre.reservations@[ri as int]) == q as int);
                    }
                }
            }
            assert(crate::store::rows_wf(posts));
            assert(crate::store::keys_unique(posts));
            assert(crate::store::refs_ok(posts));
            assert(store_wf(posts));
        }
        Ok(
            SaleReceipt {
                sale_id,
                reservation_id,
                car_id: receipt_cid,
                quantity: q,
                total_price_cents: (price as u128) * (q as u128),
            },
        )
    }

    /// Processes a sale under the current wall clock and a fresh sale
    /// identity.
    pub fn process_sale(&mut self, reservation_id: u128, customer_id: String) -> (r: Result<
        SaleReceipt,
        AppError,
    >)
        requires
            store_wf(*old(self)),
        ensures
            store_wf(*final(self)),
            reservations_evolve_ok(old(self).reservations@, final(self).reservations@),
            final(self).warehouses@ == old(self).warehouses@,
            final(self).stock_locations@ == old(self).stock_locations@,
            final(self).transfers@ == old(self).transfers@,
            final(self).metrics_history@ == old(self).metrics_history@,
            match r {
                Ok(receipt) => {
                    &&& old(self).reservation_index(reservation_id) >= 0
                    &&& old(self).reservations@[old(self).reservation_index(
                        reservation_id,
                    )].status == ReservationStatus::Pending
                    &&& receipt.reservation_id == reservation_id
                    &&& receipt.quantity == old(self).reservations@[old(
                        self,
                    ).reservation_index(reservation_id)].quantity
                    &&& final(self).sales@.len() == old(self).sales@.len() + 1
                },
                Err(e) => {
                    &&& unchanged(*old(self), *final(self))
                    &&& {
                        let ri = old(self).reservation_index(reservation_id);
                        if ri == -1 {
                            e == AppError::ReservationNotFound
                        } else {
                            let rsv = old(self).reservations@[ri];
                            let ci = old(self).live_car_index(rsv.car_id@);
                            if rsv.status != ReservationStatus::Pending {
                                e matches AppError::BusinessRuleViolation(m) && m@
                                    == "Reservation is not pending"@
                            } else {
                                e == AppError::ReservationExpired || (if ci == -1 {
                                    e == AppError::NotFound
                                } else if old(self).cars@[ci].quantity_in_stock
                                    < rsv.quantity {
                                    e matches AppError::BusinessRuleViolation(m) && m@
                                        == "Check constraint violation in Car"@
                                } else {
                                    old(self).cars@[ci].version == i64::MAX && (e matches
                                    AppError::DatabaseError(_))
                                })
                            }
                        }
                    }
                },
            },
    {
        let ghost pre = *self;
        let now = clamped_now();
        let sale_id = fresh_uuid_u128();
        let r = self.process_sale_with_id(reservation_id, customer_id, sale_id, now);
        proof {
            if r is Ok {
                crate::store::lemma_first_where_found(
                    pre.reservations@,
                    |v: Reservation| v.id == reservation_id,
                );
            }
        }
        r
    }
}

} // verus!
