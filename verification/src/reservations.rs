//! The reservation engine: atomic creation against available stock,
//! confirmation, idempotent cancellation and lookup. Available stock is the
//! car's quantity minus every pending, non-expired reservation held against
//! it; creation succeeds exactly when the request still fits.

use crate::clock::clamped_now;
use crate::errors::AppError;
use crate::ids::CarId;
use crate::models::CreateReservationDto;
use crate::models::Reservation;
use crate::models::ReservationResponse;
use crate::models::ReservationStatus;
use crate::models::create_reservation_issues;
use crate::models::reservation_response_matches;
use crate::models::reservation_response_of;
use crate::models::valid_create_reservation;
use crate::models::validate_create_reservation;
use crate::store::InventoryStore;
use crate::store::car_live;
use crate::store::counts_pending;
use crate::store::lemma_sum_over_prefix_bound;
use crate::store::lemma_sum_over_push;
use crate::store::lemma_sum_over_take_all;
use crate::store::lemma_sum_over_take_step;
use crate::store::lemma_sum_over_update;
use crate::store::pending_sum;
use crate::store::reservation_transition_allowed;
use crate::store::reservations_evolve_ok;
use crate::store::same_but_reservations;
use crate::store::stock_covers_pending;
use crate::store::store_wf;
use crate::store::sum_over;
use crate::store::unchanged;
use crate::uuids::fresh_uuid_u128;
use vstd::prelude::*;

verus! {

/// Decides whether a reservation status change follows the legal graph.
pub fn is_legal_transition(from: ReservationStatus, to: ReservationStatus) -> (r: bool)
    ensures
        r == reservation_transition_allowed(from, to),
{
    match (from, to) {
        (ReservationStatus::Pending, ReservationStatus::Confirmed) => true,
        (ReservationStatus::Pending, ReservationStatus::Expired) => true,
        (ReservationStatus::Pending, ReservationStatus::Cancelled) => true,
        (ReservationStatus::Confirmed, ReservationStatus::Completed) => true,
        _ => false,
    }
}

/// The row a successful reservation stores.
pub open spec fn created_reservation_matches(
    row: Reservation,
    cid: Seq<char>,
    dto: CreateReservationDto,
    rid: u128,
    now: int,
) -> bool {
    &&& row.id == rid
    &&& row.car_id@ == cid
    &&& row.quantity == dto.quantity
    &&& row.reserved_by == dto.reserved_by
    &&& row.expires_at == now + dto.ttl_minutes * 60
    &&& row.status == ReservationStatus::Pending
    &&& row.created_at == now
    &&& row.updated_at == now
    &&& row.metadata == dto.metadata
}

impl InventoryStore {
    /// Sums the pending, non-expired quantity held against one car,
    /// saturating at 2^31 so the caller can compare it against any stock
    /// level without assuming the stock invariant.
    #[verifier::loop_isolation(false)]
    fn pending_quantity_capped(&self, id: &str, now: i64) -> (r: i64)
        requires
            forall|j: int|
                0 <= j < self.reservations@.len() ==> (
                #[trigger] self.reservations@[j]).quantity >= 0,
        ensures
            r == (if pending_sum(self.reservations@, id@, now as int) <= 0x80000000int {
                pending_sum(self.reservations@, id@, now as int)
            } else {
                0x80000000int
            }),
            0 <= r <= 0x80000000,
    {
        let ghost f = |r: Reservation|
            if counts_pending(r, id@, now as int) {
                r.quantity as int
            } else {
                0
            };
        proof {
            assert forall|j: int|
                0 <= j < self.reservations@.len() implies #[trigger] f(
                self.reservations@[j],
            ) >= 0 by {}
            lemma_sum_over_nonneg_local(self.reservations@, f);
        }
        let n = self.reservations.len();
        let mut i: usize = 0;
        let mut acc: i64 = 0;
        while i < n
            invariant
                i <= n,
                n == self.reservations@.len(),
                acc == (if sum_over(self.reservations@.take(i as int), f) <= 0x80000000int {
                    sum_over(self.reservations@.take(i as int), f)
                } else {
                    0x80000000int
                }),
                0 <= acc <= 0x80000000,
            decreases n - i,
        {
            let rsv = &self.reservations[i];
            proof {
                lemma_sum_over_take_step(self.reservations@, f, i as int);
                lemma_sum_over_prefix_bound(self.reservations@, f, i as int);
            }
            let counts = rsv.status == ReservationStatus::Pending && rsv.expires_at > now
                && crate::textutil::str_eq(rsv.car_id.as_str(), id);
            if counts && acc < 0x80000000 {
                acc = acc + rsv.quantity as i64;
                if acc > 0x80000000 {
                    acc = 0x80000000;
                }
            }
            i += 1;
        }
        proof {
            lemma_sum_over_take_all(self.reservations@, f);
        }
        acc
    }

    /// Creates a reservation under an explicit clock reading and identity.
    /// Succeeds exactly when the input is valid, the car is live, and the
    /// requested quantity still fits under the available stock; the row is
    /// then stored pending with its expiry `ttl_minutes` ahead.
    pub fn create_reservation_with_id(
        &mut self,
        car_id: &CarId,
        dto: CreateReservationDto,
        rid: u128,
        now: i64,
    ) -> (r: Result<ReservationResponse, AppError>)
        requires
            store_wf(*old(self)),
            0 <= now <= i64::MAX - 86400,
        ensures
            store_wf(*final(self)),
            same_but_reservations(*old(self), *final(self)),
            reservations_evolve_ok(old(self).reservations@, final(self).reservations@),
            match r {
                Ok(resp) => {
                    &&& valid_create_reservation(dto)
                    &&& old(self).live_car_index(car_id@) >= 0
                    &&& old(self).reservation_index(rid) == -1
                    &&& pending_sum(old(self).reservations@, car_id@, now as int) + dto.quantity
                        <= old(self).cars@[old(self).live_car_index(
                        car_id@,
                    )].quantity_in_stock
                    &&& final(self).reservations@.len() == old(self).reservations@.len() + 1
                    &&& final(self).reservations@.subrange(
                        0,
                        old(self).reservations@.len() as int,
                    ) == old(self).reservations@
                    &&& created_reservation_matches(
                        final(self).reservations@.last(),
                        car_id@,
                        dto,
                        rid,
                        now as int,
                    )
                    &&& reservation_response_matches(
                        resp,
                        final(self).reservations@.last(),
                        now as int,
                    )
                    &&& (stock_covers_pending(*old(self), now as int) ==> stock_covers_pending(
                        *final(self),
                        now as int,
                    ))
                },
                Err(e) => {
                    &&& unchanged(*old(self), *final(self))
                    &&& {
                        let pend = pending_sum(old(self).reservations@, car_id@, now as int);
                        let capped = if pend <= 0x80000000int {
                            pend
                        } else {
                            0x80000000int
                        };
                        if !valid_create_reservation(dto) {
                            e matches AppError::ValidationError(v)
                                && crate::models::issues_match(
                                v,
                                create_reservation_issues(dto),
                            )
                        } else if old(self).live_car_index(car_id@) == -1 {
                            e == AppError::NotFound
                        } else if pend + dto.quantity > old(self).cars@[old(
                            self,
                        ).live_car_index(car_id@)].quantity_in_stock {
                            let avail = old(self).cars@[old(self).live_car_index(
                                car_id@,
                            )].quantity_in_stock - capped;
                            e == (AppError::InsufficientStock {
                                requested: dto.quantity as u32,
                                available: (if avail >= 0 {
                                    avail as u32
                                } else {
                                    0u32
                                }),
                            })
                        } else {
                            old(self).reservation_index(rid) >= 0 && (e matches
                            AppError::DatabaseError(_))
                        }
                    }
                },
            },
    {
        let ghost pre = *self;
        let issues = validate_create_reservation(&dto);
        if !issues.is_empty() {
            return Err(AppError::ValidationError(issues));
        }
        let i = match self.find_live_car(car_id.as_str()) {
            Some(i) => i,
            None => {
                return Err(AppError::NotFound);
            },
        };
        let stock = self.cars[i].quantity_in_stock;
        let capped = self.pending_quantity_capped(car_id.as_str(), now);
        let avail: i64 = stock as i64 - capped;
        if avail < dto.quantity as i64 {
            proof {
                let pend = pending_sum(pre.reservations@, car_id@, now as int);
                if pend > 0x80000000int {
                    assert(pend + dto.quantity > stock as int);
                }
            }
            let available: u32 = if avail >= 0 {
                avail as u32
            } else {
                0
            };
            return Err(
                AppError::InsufficientStock { requested: dto.quantity as u32, available },
            );
        }
        if let Some(_) = self.find_reservation(rid) {
            return Err(
                AppError::DatabaseError(
                    String::from_str("duplicate key value violates unique constraint"),
                ),
            );
        }
        proof {
            let pend = pending_sum(pre.reservations@, car_id@, now as int);
            if pend > 0x80000000int {
                assert(avail < dto.quantity as i64);
            }
            assert(pend + dto.quantity <= stock as int);
        }
        let CreateReservationDto { quantity, reserved_by, ttl_minutes, metadata } = dto;
        let row = Reservation {
            id: rid,
            car_id: car_id.duplicate(),
            quantity,
            reserved_by,
            expires_at: now + (ttl_minutes as i64) * 60,
            status: ReservationStatus::Pending,
            created_at: now,
            updated_at: now,
            metadata,
        };
        self.reservations.push(row);
        let n = self.reservations.len();
        let resp = reservation_response_of(&self.reservations[n - 1], now);
        proof {
            let posts = *self;
            let last = posts.reservations@.last();
            assert(posts.reservations@.subrange(0, pre.reservations@.len() as int)
                =~= pre.reservations@);
            assert forall|a: int, b: int|
                0 <= a < b < posts.reservations@.len() implies posts.reservations@[a].id
                != posts.reservations@[b].id by {
                if b < pre.reservations@.len() {
                    assert(pre.reservations@[a].id != pre.reservations@[b].id);
                } else {
                    assert(pre.reservations@[a].id != rid);
                }
            }
            assert forall|k: int| 0 <= k < posts.reservations@.len() implies exists|j: int|
                0 <= j < posts.cars@.len() && (#[trigger] posts.reservations@[k]).car_id@
                    == posts.cars@[j].car_id@ by {
                if k < pre.reservations@.len() {
                    let j0 = choose|j: int|
                        0 <= j < pre.cars@.len() && pre.reservations@[k].car_id@ == pre.cars@[
                            j
                        ].car_id@;
                    assert(posts.cars@[j0].car_id@ == pre.cars@[j0].car_id@);
                } else {
                    assert(posts.cars@[i as int].car_id@ == car_id@);
                }
            }
            if stock_covers_pending(pre, now as int) {
                assert forall|j: int|
                    0 <= j < posts.cars@.len() && car_live(#[trigger] posts.cars@[j]) implies
                    posts.cars@[j].quantity_in_stock >= pending_sum(
                    posts.reservations@,
                    posts.cars@[j].car_id@,
                    now as int,
                ) by {
                    let id_j = posts.cars@[j].car_id@;
                    let fj = |r: Reservation|
                        if counts_pending(r, id_j, now as int) {
                            r.quantity as int
                        } else {
                            0
                        };
                    lemma_sum_over_push(pre.reservations@, fj, last);
                    if id_j == car_id@ {
                        assert(j == i as int);
                        assert(counts_pending(last, id_j, now as int));
                    } else {
                        assert(!counts_pending(last, id_j, now as int));
                    }
                }
            }
        }
        Ok(resp)
    }

    /// Creates a reservation under the current wall clock and a fresh
    /// identity. Whatever the clock read, the store stays well formed, the
    /// status graph is respected, and any stored row is pending with the
    /// requested quantity.
    pub fn create_reservation(&mut self, car_id: &CarId, dto: CreateReservationDto) -> (r: Result<
        ReservationResponse,
        AppError,
    >)
        requires
            store_wf(*old(self)),
        ensures
            store_wf(*final(self)),
            same_but_reservations(*old(self), *final(self)),
            reservations_evolve_ok(old(self).reservations@, final(self).reservations@),
            match r {
                Ok(resp) => {
                    &&& valid_create_reservation(dto)
                    &&& old(self).live_car_index(car_id@) >= 0
                    &&& final(self).reservations@.len() == old(self).reservations@.len() + 1
                    &&& final(self).reservations@.subrange(
                        0,
                        old(self).reservations@.len() as int,
                    ) == old(self).reservations@
                    &&& exists|t: i64|
                        0 <= t && created_reservation_matches(
                            final(self).reservations@.last(),
                            car_id@,
                            dto,
                            final(self).reservations@.last().id,
                            t as int,
                        ) && reservation_response_matches(
                            resp,
                            final(self).reservations@.last(),
                            t as int,
                        ) && (stock_covers_pending(*old(self), t as int)
                            ==> stock_covers_pending(*final(self), t as int))
                },
                Err(e) => {
                    &&& unchanged(*old(self), *final(self))
                    &&& if !valid_create_reservation(dto) {
                        e matches AppError::ValidationError(v) && crate::models::issues_match(
                            v,
                            create_reservation_issues(dto),
                        )
                    } else if old(self).live_car_index(car_id@) == -1 {
                        e == AppError::NotFound
                    } else {
                        (e matches AppError::DatabaseError(_)) || exists|t: int|
                            {
                                let stock = old(self).cars@[old(self).live_car_index(
                                    car_id@,
                                )].quantity_in_stock;
                                &&& 0 <= t
                                &&& (#[trigger] pending_sum(
                                    old(self).reservations@,
                                    car_id@,
                                    t,
                                )) + dto.quantity > stock
                                &&& e == (AppError::InsufficientStock {
                                    requested: dto.quantity as u32,
                                    available: (if stock - (if pending_sum(
                                        old(self).reservations@,
                                        car_id@,
                                        t,
                                    ) <= 0x80000000int {
                                        pending_sum(old(self).reservations@, car_id@, t)
                                    } else {
                                        0x80000000int
                                    }) >= 0 {
                                        (stock - (if pending_sum(
                                            old(self).reservations@,
                                            car_id@,
                                            t,
                                        ) <= 0x80000000int {
                                            pending_sum(old(self).reservations@, car_id@, t)
                                        } else {
                                            0x80000000int
                                        })) as u32
                                    } else {
                                        0u32
                                    }),
                                })
                            }
                    }
                },
            },
    {
        let now = clamped_now();
        let rid = fresh_uuid_u128();
        let r = self.create_reservation_with_id(car_id, dto, rid, now);
        proof {
            if r is Ok {
                assert(final(self).reservations@.last().id == rid);
            }
        }
        r
    }

    /// Fetches a reservation under an explicit clock reading.
    pub fn get_reservation_at(&self, rid: u128, now: i64) -> (r: Result<
        ReservationResponse,
        AppError,
    >)
        requires
            store_wf(*self),
            now >= 0,
        ensures
            match r {
                Ok(resp) => self.reservation_index(rid) >= 0 && reservation_response_matches(
                    resp,
                    self.reservations@[self.reservation_index(rid)],
                    now as int,
                ),
                Err(e) => self.reservation_index(rid) == -1 && e
                    == AppError::ReservationNotFound,
            },
    {
        match self.find_reservation(rid) {
            Some(i) => Ok(reservation_response_of(&self.reservations[i], now)),
            None => Err(AppError::ReservationNotFound),
        }
    }

    /// Fetches a reservation under the current wall clock.
    pub fn get_reservation(&self, rid: u128) -> (r: Result<ReservationResponse, AppError>)
        requires
            store_wf(*self),
        ensures
            match r {
                Ok(resp) => self.reservation_index(rid) >= 0,
                Err(e) => self.reservation_index(rid) == -1 && e
                    == AppError::ReservationNotFound,
            },
    {
        let now = clamped_now();
        self.get_reservation_at(rid, now)
    }

    /// Confirms a pending, unexpired reservation under an explicit clock
    /// reading: exactly then does its status move to confirmed. The
    /// pending total never grows, so the stock invariant is kept at every
    /// time.
    pub fn confirm_reservation_at(&mut self, rid: u128, now: i64) -> (r: Result<
        ReservationResponse,
        AppError,
    >)
        requires
            store_wf(*old(self)),
            now >= 0,
        ensures
            store_wf(*final(self)),
            same_but_reservations(*old(self), *final(self)),
            reservations_evolve_ok(old(self).reservations@, final(self).reservations@),
            forall|t: int|
                stock_covers_pending(*old(self), t) ==> stock_covers_pending(*final(self), t),
            match r {
                Ok(resp) => {
                    &&& old(self).reservation_index(rid) >= 0
                    &&& {
                        let i = old(self).reservation_index(rid);
                        &&& old(self).reservations@[i].status == ReservationStatus::Pending
                        &&& old(self).reservations@[i].expires_at >= now
                        &&& final(self).reservations@ == old(self).reservations@.update(
                            i,
                            final(self).reservations@[i],
                        )
                        &&& final(self).reservations@[i] == (Reservation {
                            status: ReservationStatus::Confirmed,
                            updated_at: now,
                            ..old(self).reservations@[i]
                        })
                        &&& reservation_response_matches(
                            resp,
                            final(self).reservations@[i],
                            now as int,
                        )
                    }
                },
                Err(e) => {
                    &&& unchanged(*old(self), *final(self))
                    &&& if old(self).reservation_index(rid) == -1 {
                        e == AppError::ReservationNotFound
                    } else if old(self).reservations@[old(self).reservation_index(rid)].status
                        != ReservationStatus::Pending {
                        e matches AppError::BusinessRuleViolation(m) && m@
                            == "Reservation is not pending"@
                    } else {
                        old(self).reservations@[old(self).reservation_index(rid)].expires_at
                            < now && e == AppError::ReservationExpired
                    }
                },
            },
    {
        let ghost pre = *self;
        let i = match self.find_reservation(rid) {
            Some(i) => i,
            None => {
                return Err(AppError::ReservationNotFound);
            },
        };
        if !(self.reservations[i].status == ReservationStatus::Pending) {
            return Err(
                AppError::BusinessRuleViolation(String::from_str("Reservation is not pending")),
            );
        }
        if self.reservations[i].expires_at < now {
            return Err(AppError::ReservationExpired);
        }
        let rsv = &mut self.reservations[i];
        rsv.status = ReservationStatus::Confirmed;
        rsv.updated_at = now;
        let resp = reservation_response_of(&self.reservations[i], now);
        proof {
            confirm_cancel_proof(pre, *self, i as int, now as int);
        }
        Ok(resp)
    }

    /// Confirms a reservation under the current wall clock.
    pub fn confirm_reservation(&mut self, rid: u128) -> (r: Result<ReservationResponse, AppError>)
        requires
            store_wf(*old(self)),
        ensures
            store_wf(*final(self)),
            same_but_reservations(*old(self), *final(self)),
            reservations_evolve_ok(old(self).reservations@, final(self).reservations@),
            forall|t: int|
                stock_covers_pending(*old(self), t) ==> stock_covers_pending(*final(self), t),
            r is Ok ==> old(self).reservation_index(rid) >= 0 && old(self).reservations@[old(
                self,
            ).reservation_index(rid)].status == ReservationStatus::Pending,
            r matches Err(e) ==> unchanged(*old(self), *final(self)) && (if old(
                self,
            ).reservation_index(rid) == -1 {
                e == AppError::ReservationNotFound
            } else if old(self).reservations@[old(self).reservation_index(rid)].status
                != ReservationStatus::Pending {
                e matches AppError::BusinessRuleViolation(m) && m@
                    == "Reservation is not pending"@
            } else {
                e == AppError::ReservationExpired
            }),
    {
        let now = clamped_now();
        self.confirm_reservation_at(rid, now)
    }

    /// Cancels a pending reservation under an explicit clock reading.
    /// Exactly the pending rows can be cancelled: a second cancellation of
    /// the same identity reports the reservation as not found and leaves
    /// the store unchanged.
    pub fn cancel_reservation_at(&mut self, rid: u128, now: i64) -> (r: Result<(), AppError>)
        requires
            store_wf(*old(self)),
            now >= 0,
        ensures
            store_wf(*final(self)),
            same_but_reservations(*old(self), *final(self)),
            reservations_evolve_ok(old(self).reservations@, final(self).reservations@),
            forall|t: int|
                stock_covers_pending(*old(self), t) ==> stock_covers_pending(*final(self), t),
            match r {
                Ok(()) => {
                    &&& old(self).reservation_index(rid) >= 0
                    &&& {
                        let i = old(self).reservation_index(rid);
                        &&& old(self).reservations@[i].status == ReservationStatus::Pending
                        &&& final(self).reservations@ == old(self).reservations@.update(
                            i,
                            final(self).reservations@[i],
                        )
                        &&& final(self).reservations@[i] == (Reservation {
                            status: ReservationStatus::Cancelled,
                            updated_at: now,
                            ..old(self).reservations@[i]
                        })
                    }
                },
                Err(e) => {
                    &&& unchanged(*old(self), *final(self))
                    &&& e == AppError::ReservationNotFound
                    &&& (old(self).reservation_index(rid) == -1 || old(self).reservations@[old(
                        self,
                    ).reservation_index(rid)].status != ReservationStatus::Pending)
                },
            },
    {
        let ghost pre = *self;
        let i = match self.find_reservation(rid) {
            Some(i) => i,
            None => {
                return Err(AppError::ReservationNotFound);
            },
        };
        if !(self.reservations[i].status == ReservationStatus::Pending) {
            return Err(AppError::ReservationNotFound);
        }
        let rsv = &mut self.reservations[i];
        rsv.status = ReservationStatus::Cancelled;
        rsv.updated_at = now;
        proof {
            confirm_cancel_proof(pre, *self, i as int, now as int);
        }
        Ok(())
    }

    /// Cancels a reservation under the current wall clock. The first
    /// cancellation of a pending reservation succeeds; any further one
    /// reports it as not found, and nothing else ever changes.
    pub fn cancel_reservation(&mut self, rid: u128) -> (r: Result<(), AppError>)
        requires
            store_wf(*old(self)),
        ensures
            store_wf(*final(self)),
            same_but_reservations(*old(self), *final(self)),
            reservations_evolve_ok(old(self).reservations@, final(self).reservations@),
            forall|t: int|
                stock_covers_pending(*old(self), t) ==> stock_covers_pending(*final(self), t),
            match r {
                Ok(()) => {
                    &&& old(self).reservation_index(rid) >= 0
                    &&& {
                        let i = old(self).reservation_index(rid);
                        &&& old(self).reservations@[i].status == ReservationStatus::Pending
                        &&& final(self).reservations@ == old(self).reservations@.update(
                            i,
                            final(self).reservations@[i],
                        )
                        &&& final(self).reservations@[i].status
                            == ReservationStatus::Cancelled
                        &&& final(self).reservations@[i].id == rid
                        &&& final(self).reservations@[i].quantity == old(
                            self,
                        ).reservations@[i].quantity
                    }
                },
                Err(e) => {
                    &&& unchanged(*old(self), *final(self))
                    &&& e == AppError::ReservationNotFound
                    &&& (old(self).reservation_index(rid) == -1 || old(self).reservations@[old(
                        self,
                    ).reservation_index(rid)].status != ReservationStatus::Pending)
                },
            },
    {
        let ghost pre = *self;
        let now = clamped_now();
        let r = self.cancel_reservation_at(rid, now);
        proof {
            if r is Ok {
                crate::store::lemma_first_where_found(
                    pre.reservations@,
                    |v: Reservation| v.id == rid,
                );
            }
        }
        r
    }
}

/// Shared invariant-preservation proof for confirmation and cancellation:
/// the row at `i` left the pending state, so at every time the pending
/// total of every car is no larger than before.
proof fn confirm_cancel_proof(pre: InventoryStore, posts: InventoryStore, i: int, now: int)
    requires
        store_wf(pre),
        0 <= i < pre.reservations@.len(),
        posts.cars@ == pre.cars@,
        posts.reservations@ == pre.reservations@.update(i, posts.reservations@[i]),
        posts.reservations@[i].status != ReservationStatus::Pending,
        posts.reservations@[i].car_id@ == pre.reservations@[i].car_id@,
        posts.reservations@[i].id == pre.reservations@[i].id,
        posts.reservations@[i].quantity == pre.reservations@[i].quantity,
        posts.reservations@[i].expires_at == pre.reservations@[i].expires_at,
        posts.reservations@[i].created_at == pre.reservations@[i].created_at,
        posts.reservations@[i].updated_at == now,
        now >= 0,
        posts.warehouses@ == pre.warehouses@,
        posts.stock_locations@ == pre.stock_locations@,
        posts.transfers@ == pre.transfers@,
        posts.sales@ == pre.sales@,
        posts.metrics_history@ == pre.metrics_history@,
    ensures
        store_wf(posts),
        forall|t: int| stock_covers_pending(pre, t) ==> stock_covers_pending(posts, t),
{
    assert forall|a: int, b: int|
        0 <= a < b < posts.reservations@.len() implies posts.reservations@[a].id
        != posts.reservations@[b].id by {
        assert(pre.reservations@[a].id != pre.reservations@[b].id);
    }
    crate::store::lemma_refs_ok_reservations_changed(pre, posts);
    assert forall|t: int| stock_covers_pending(pre, t) implies stock_covers_pending(posts, t) by {
        assert forall|j: int|
            0 <= j < posts.cars@.len() && car_live(#[trigger] posts.cars@[j]) implies posts.cars@[
            j
        ].quantity_in_stock >= pending_sum(posts.reservations@, posts.cars@[j].car_id@, t) by {
            let id_j = posts.cars@[j].car_id@;
            let fj = |r: Reservation|
                if counts_pending(r, id_j, t) {
                    r.quantity as int
                } else {
                    0
                };
            lemma_sum_over_update(pre.reservations@, fj, i, posts.reservations@[i]);
            assert(fj(posts.reservations@[i]) == 0);
            assert(fj(pre.reservations@[i]) >= 0);
        }
    }
}

/// Local wrapper over the store's non-negative-sum lemma with the closure
/// shape used here.
proof fn lemma_sum_over_nonneg_local(s: Seq<Reservation>, f: spec_fn(Reservation) -> int)
    requires
        forall|j: int| 0 <= j < s.len() ==> #[trigger] f(s[j]) >= 0,
    ensures
        sum_over(s, f) >= 0,
{
    crate::store::lemma_sum_over_nonneg(s, f);
}

/// Cancellation is idempotent and cannot corrupt state: after one
/// successful cancellation the same identity still resolves to the same
/// row, now no longer pending — so by the cancellation contract a second
/// attempt reports the reservation as not found and leaves the store
/// untouched.
pub proof fn lemma_cancel_is_idempotent(
    pre: InventoryStore,
    mid: InventoryStore,
    rid: u128,
    i: int,
)
    requires
        crate::store::keys_unique(pre),
        i == pre.reservation_index(rid),
        0 <= i < pre.reservations@.len(),
        mid.reservations@ == pre.reservations@.update(i, mid.reservations@[i]),
        mid.reservations@[i].id == rid,
        mid.reservations@[i].status == ReservationStatus::Cancelled,
    ensures
        mid.reservation_index(rid) == i,
        mid.reservations@[mid.reservation_index(rid)].status != ReservationStatus::Pending,
{
    let p = |v: Reservation| v.id == rid;
    crate::store::lemma_first_where_found(pre.reservations@, p);
    assert forall|j: int| 0 <= j < i implies !p(#[trigger] mid.reservations@[j]) by {
        assert(mid.reservations@[j] == pre.reservations@[j]);
        assert(pre.reservations@[i].id == rid);
        if pre.reservations@[j].id == rid {
            assert(pre.reservations@[j].id != pre.reservations@[i].id);
        }
    }
    crate::store::lemma_first_where_at(mid.reservations@, p, i);
}

} // verus!
