//! Car SKU operations: creation, lookup, listing with filters and paging,
//! full and partial updates, the version-guarded update of the optimistic
//! concurrency protocol, and soft deletion. Every mutation bumps the row
//! version by exactly one and preserves the store invariants.

use crate::errors::AppError;
use crate::ids::CarId;
use crate::models::CarEntity;
use crate::models::CarResponse;
use crate::models::CarUpdateData;
use crate::models::CreateCarDto;
use crate::models::UpdateCarDto;
use crate::models::car_response_matches;
use crate::models::car_response_of;
use crate::models::create_car_issues;
use crate::models::update_car_issues;
use crate::models::valid_create_car;
use crate::models::valid_update_car;
use crate::models::validate_create_car;
use crate::models::validate_update_car;
use crate::store::InventoryStore;
use crate::store::car_live;
use crate::store::lemma_pending_sum_absent;
use crate::store::lemma_refs_ok_car_push;
use crate::store::lemma_refs_ok_car_update;
use crate::store::pending_sum;
use crate::store::refs_ok;
use crate::store::same_but_cars;
use crate::store::stock_covers_pending;
use crate::store::store_wf;
use crate::store::unchanged;
use vstd::assert_seqs_equal;
use vstd::prelude::*;

verus! {

/// The row a successful creation stores: the request's fields, a fresh
/// version of 1, both timestamps at `now`, and no tombstone.
pub open spec fn created_car_matches(c: CarEntity, dto: CreateCarDto, now: int) -> bool {
    &&& c.car_id@ == dto.car_id@
    &&& c.brand == dto.brand
    &&& c.model == dto.model
    &&& c.year == dto.year
    &&& c.color == Some(dto.color)
    &&& c.engine_type == dto.engine_type
    &&& c.transmission == Some(dto.transmission)
    &&& c.price_cents == dto.price_cents
    &&& c.quantity_in_stock == dto.quantity_in_stock
    &&& c.status == dto.status
    &&& c.reorder_point == 0
    &&& c.economic_order_qty == 0
    &&& c.version == 1
    &&& c.created_at == now
    &&& c.updated_at == now
    &&& c.deleted_at is None
}

/// The partial-merge rule: a field named in the patch is taken from it,
/// an absent field keeps its current value, and an absent optional text
/// field falls back to the empty string.
pub open spec fn merged_matches(m: CarUpdateData, dto: UpdateCarDto, cur: CarEntity) -> bool {
    &&& m.brand == (match dto.brand {
        Some(b) => b,
        None => cur.brand,
    })
    &&& m.model == (match dto.model {
        Some(v) => v,
        None => cur.model,
    })
    &&& m.year == (match dto.year {
        Some(y) => y,
        None => cur.year,
    })
    &&& m.color@ == (match dto.color {
        Some(c) => c@,
        None => match cur.color {
            Some(c2) => c2@,
            None => Seq::<char>::empty(),
        },
    })
    &&& m.engine_type == (match dto.engine_type {
        Some(e) => e,
        None => cur.engine_type,
    })
    &&& m.transmission@ == (match dto.transmission {
        Some(t) => t@,
        None => match cur.transmission {
            Some(t2) => t2@,
            None => Seq::<char>::empty(),
        },
    })
    &&& m.price_cents == (match dto.price_cents {
        Some(p) => p,
        None => cur.price_cents,
    })
    &&& m.quantity_in_stock == (match dto.quantity_in_stock {
        Some(q) => q,
        None => cur.quantity_in_stock,
    })
    &&& m.status == (match dto.status {
        Some(st) => st,
        None => cur.status,
    })
}

/// The row an applied update stores: the merged fields, the version bumped
/// by exactly one, `updated_at` at `now`, and identity, timestamps and
/// reorder parameters kept.
pub open spec fn applied_update_matches(
    new: CarEntity,
    old_c: CarEntity,
    m: CarUpdateData,
    now: int,
) -> bool {
    &&& new.car_id@ == old_c.car_id@
    &&& new.brand == m.brand
    &&& new.model == m.model
    &&& new.year == m.year
    &&& new.color == Some(m.color)
    &&& new.engine_type == m.engine_type
    &&& new.transmission == Some(m.transmission)
    &&& new.price_cents == m.price_cents
    &&& new.quantity_in_stock == m.quantity_in_stock
    &&& new.status == m.status
    &&& new.reorder_point == old_c.reorder_point
    &&& new.economic_order_qty == old_c.economic_order_qty
    &&& new.version == old_c.version + 1
    &&& new.created_at == old_c.created_at
    &&& new.updated_at == now
    &&& new.deleted_at == old_c.deleted_at
}

/// Merges a patch over the current row per the partial-merge rule.
pub fn merge_update(dto: UpdateCarDto, cur: &CarEntity) -> (m: CarUpdateData)
    ensures
        merged_matches(m, dto, *cur),
{
    let brand = match dto.brand {
        Some(b) => b,
        None => cur.brand.clone(),
    };
    let model = match dto.model {
        Some(v) => v,
        None => cur.model.clone(),
    };
    let year = match dto.year {
        Some(y) => y,
        None => cur.year,
    };
    let color = match dto.color {
        Some(c) => c,
        None => match &cur.color {
            Some(c2) => c2.clone(),
            None => String::new(),
        },
    };
    let engine_type = match dto.engine_type {
        Some(e) => e,
        None => cur.engine_type,
    };
    let transmission = match dto.transmission {
        Some(t) => t,
        None => match &cur.transmission {
            Some(t2) => t2.clone(),
            None => String::new(),
        },
    };
    let price_cents = match dto.price_cents {
        Some(p) => p,
        None => cur.price_cents,
    };
    let quantity_in_stock = match dto.quantity_in_stock {
        Some(q) => q,
        None => cur.quantity_in_stock,
    };
    let status = match dto.status {
        Some(st) => st,
        None => cur.status,
    };
    CarUpdateData {
        brand,
        model,
        year,
        color,
        engine_type,
        transmission,
        price_cents,
        quantity_in_stock,
        status,
    }
}

impl InventoryStore {
    /// Applies a merged update to the car row at `i`, bumping its version.
    /// Keeps the store well formed; keeps the stock invariant whenever the
    /// new quantity still covers the pending reservations of that car.
    fn apply_update(&mut self, i: usize, data: CarUpdateData, now: i64) -> (resp: CarResponse)
        requires
            store_wf(*old(self)),
            i < old(self).cars@.len(),
            old(self).cars@[i as int].version < i64::MAX,
            data.quantity_in_stock >= 0,
            now >= 0,
        ensures
            store_wf(*final(self)),
            same_but_cars(*old(self), *final(self)),
            final(self).cars@ == old(self).cars@.update(
                i as int,
                final(self).cars@[i as int],
            ),
            applied_update_matches(
                final(self).cars@[i as int],
                old(self).cars@[i as int],
                data,
                now as int,
            ),
            car_response_matches(resp, final(self).cars@[i as int]),
            stock_covers_pending(*old(self), now as int) && data.quantity_in_stock >= pending_sum(
                old(self).reservations@,
                old(self).cars@[i as int].car_id@,
                now as int,
            ) ==> stock_covers_pending(*final(self), now as int),
    {
        let ghost pre = *self;
        let c = &mut self.cars[i];
        c.brand = data.brand;
        c.model = data.model;
        c.year = data.year;
        c.color = Some(data.color);
        c.engine_type = data.engine_type;
        c.transmission = Some(data.transmission);
        c.price_cents = data.price_cents;
        c.quantity_in_stock = data.quantity_in_stock;
        c.status = data.status;
        c.version = c.version + 1;
        c.updated_at = now;
        let resp = car_response_of(&self.cars[i]);
        proof {
            let posts = *self;
            assert(posts.cars@ == pre.cars@.update(i as int, posts.cars@[i as int]));
            assert forall|a: int, b: int|
                0 <= a < b < posts.cars@.len() implies posts.cars@[a].car_id@ != posts.cars@[
                b
            ].car_id@ by {
                assert(pre.cars@[a].car_id@ != pre.cars@[b].car_id@);
            }
            lemma_refs_ok_car_update(pre, posts, i as int, posts.cars@[i as int]);
            if stock_covers_pending(pre, now as int) && data.quantity_in_stock >= pending_sum(
                pre.reservations@,
                pre.cars@[i as int].car_id@,
                now as int,
            ) {
                assert forall|j: int|
                    0 <= j < posts.cars@.len() && car_live(#[trigger] posts.cars@[j]) implies
                    posts.cars@[j].quantity_in_stock >= pending_sum(
                    posts.reservations@,
                    posts.cars@[j].car_id@,
                    now as int,
                ) by {
                    if j != i as int {
                        assert(posts.cars@[j] == pre.cars@[j]);
                    }
                }
            }
        }
        resp
    }

    /// Creates a car. Rejects invalid input, an ill-formed identifier, and
    /// a duplicate identifier; otherwise stores the new row at version 1.
    pub fn create_car(&mut self, dto: CreateCarDto, now: i64) -> (r: Result<CarResponse, AppError>)
        requires
            store_wf(*old(self)),
            stock_covers_pending(*old(self), now as int),
            now >= 0,
        ensures
            store_wf(*final(self)),
            match r {
                Ok(resp) => {
                    &&& valid_create_car(dto)
                    &&& crate::ids::valid_car_id(dto.car_id@)
                    &&& old(self).any_car_index(dto.car_id@) == -1
                    &&& final(self).cars@.len() == old(self).cars@.len() + 1
                    &&& final(self).cars@.subrange(0, old(self).cars@.len() as int) == old(self).cars@
                    &&& created_car_matches(final(self).cars@.last(), dto, now as int)
                    &&& car_response_matches(resp, final(self).cars@.last())
                    &&& same_but_cars(*old(self), *final(self))
                    &&& stock_covers_pending(*final(self), now as int)
                },
                Err(e) => {
                    &&& unchanged(*old(self), *final(self))
                    &&& stock_covers_pending(*final(self), now as int)
                    &&& if !valid_create_car(dto) {
                        e matches AppError::ValidationError(v) && crate::models::issues_match(
                            v,
                            create_car_issues(dto),
                        )
                    } else if !crate::ids::valid_car_id(dto.car_id@) {
                        e matches AppError::ValidationError(_)
                    } else {
                        old(self).any_car_index(dto.car_id@) >= 0 && (e matches
                        AppError::AlreadyExists(m) && m@ == "Car already exists"@)
                    }
                },
            },
    {
        let issues = validate_create_car(&dto);
        if !issues.is_empty() {
            return Err(AppError::ValidationError(issues));
        }
        let CreateCarDto {
            car_id,
            brand,
            model,
            year,
            color,
            engine_type,
            transmission,
            price_cents,
            quantity_in_stock,
            status,
        } = dto;
        let cid = match CarId::new(car_id) {
            Ok(c) => c,
            Err(e) => {
                return Err(e);
            },
        };
        match self.find_any_car(cid.as_str()) {
            Some(_) => {
                let mut m = String::from_str("Car");
                m.append(" already exists");
                proof {
                    reveal_strlit("Car");
                    reveal_strlit(" already exists");
                    reveal_strlit("Car already exists");
                    assert_seqs_equal!(m@, "Car already exists"@);
                }
                Err(AppError::AlreadyExists(m))
            },
            None => {
                let ghost pre = *self;
                let entity = CarEntity {
                    car_id: cid,
                    brand,
                    model,
                    year,
                    color: Some(color),
                    engine_type,
                    transmission: Some(transmission),
                    price_cents,
                    quantity_in_stock,
                    status,
                    reorder_point: 0,
                    economic_order_qty: 0,
                    version: 1,
                    created_at: now,
                    updated_at: now,
                    deleted_at: None,
                };
                self.cars.push(entity);
                let n = self.cars.len();
                let resp = car_response_of(&self.cars[n - 1]);
                proof {
                    let posts = *self;
                    assert(posts.cars@.subrange(0, pre.cars@.len() as int) =~= pre.cars@);
                    assert forall|a: int, b: int|
                        0 <= a < b < posts.cars@.len() implies posts.cars@[a].car_id@
                        != posts.cars@[b].car_id@ by {
                        if b < pre.cars@.len() {
                            assert(pre.cars@[a].car_id@ != pre.cars@[b].car_id@);
                        } else {
                            assert(pre.cars@[a].car_id@ != dto.car_id@);
                        }
                    }
                    lemma_refs_ok_car_push(pre, posts, posts.cars@.last());
                    assert forall|k: int|
                        0 <= k < posts.reservations@.len() implies (
                    #[trigger] posts.reservations@[k]).car_id@ != dto.car_id@ by {
                        let j0 = choose|j: int|
                            0 <= j < pre.cars@.len() && pre.reservations@[k].car_id@
                                == pre.cars@[j].car_id@;
                        assert(pre.cars@[j0].car_id@ != dto.car_id@);
                    }
                    lemma_pending_sum_absent(posts.reservations@, dto.car_id@, now as int);
                    assert forall|j: int|
                        0 <= j < posts.cars@.len() && car_live(#[trigger] posts.cars@[j]) implies
                        posts.cars@[j].quantity_in_stock >= pending_sum(
                        posts.reservations@,
                        posts.cars@[j].car_id@,
                        now as int,
                    ) by {
                        if j < pre.cars@.len() {
                            assert(posts.cars@[j] == pre.cars@[j]);
                        }
                    }
                }
                Ok(resp)
            },
        }
    }

    /// Fetches a live car by identifier.
    pub fn get_car_by_id(&self, id: &CarId) -> (r: Result<CarResponse, AppError>)
        ensures
            match r {
                Ok(resp) => self.live_car_index(id@) >= 0 && car_response_matches(
                    resp,
                    self.cars@[self.live_car_index(id@)],
                ),
                Err(e) => self.live_car_index(id@) == -1 && e == AppError::NotFound,
            },
    {
        match self.find_live_car(id.as_str()) {
            Some(i) => Ok(car_response_of(&self.cars[i])),
            None => Err(AppError::NotFound),
        }
    }

    /// Replaces every client-settable field of a live car, bumping its
    /// version; absent rows are reported as not found.
    pub fn update_car(&mut self, id: &CarId, dto: CreateCarDto, now: i64) -> (r: Result<
        CarResponse,
        AppError,
    >)
        requires
            store_wf(*old(self)),
            now >= 0,
        ensures
            store_wf(*final(self)),
            same_but_cars(*old(self), *final(self)),
            match r {
                Ok(resp) => {
                    &&& valid_create_car(dto)
                    &&& old(self).live_car_index(id@) >= 0
                    &&& {
                        let i = old(self).live_car_index(id@);
                        let m = CarUpdateData {
                            brand: dto.brand,
                            model: dto.model,
                            year: dto.year,
                            color: dto.color,
                            engine_type: dto.engine_type,
                            transmission: dto.transmission,
                            price_cents: dto.price_cents,
                            quantity_in_stock: dto.quantity_in_stock,
                            status: dto.status,
                        };
                        &&& final(self).cars@ == old(self).cars@.update(i, final(self).cars@[i])
                        &&& applied_update_matches(
                            final(self).cars@[i],
                            old(self).cars@[i],
                            m,
                            now as int,
                        )
                        &&& car_response_matches(resp, final(self).cars@[i])
                        &&& stock_covers_pending(*old(self), now as int)
                            && dto.quantity_in_stock >= pending_sum(
                            old(self).reservations@,
                            id@,
                            now as int,
                        ) ==> stock_covers_pending(*final(self), now as int)
                    }
                },
                Err(e) => {
                    &&& unchanged(*old(self), *final(self))
                    &&& if !valid_create_car(dto) {
                        e matches AppError::ValidationError(v) && crate::models::issues_match(
                            v,
                            create_car_issues(dto),
                        )
                    } else if old(self).live_car_index(id@) == -1 {
                        e == AppError::NotFound
                    } else {
                        old(self).cars@[old(self).live_car_index(id@)].version == i64::MAX && (
                        e matches AppError::DatabaseError(_))
                    }
                },
            },
    {
        let issues = validate_create_car(&dto);
        if !issues.is_empty() {
            return Err(AppError::ValidationError(issues));
        }
        match self.find_live_car(id.as_str()) {
            None => Err(AppError::NotFound),
            Some(i) => {
                if self.cars[i].version == i64::MAX {
                    return Err(AppError::DatabaseError(String::from_str("bigint out of range")));
                }
                let data = CarUpdateData {
                    brand: dto.brand,
                    model: dto.model,
                    year: dto.year,
                    color: dto.color,
                    engine_type: dto.engine_type,
                    transmission: dto.transmission,
                    price_cents: dto.price_cents,
                    quantity_in_stock: dto.quantity_in_stock,
                    status: dto.status,
                };
                Ok(self.apply_update(i, data, now))
            },
        }
    }

    /// Applies a partial update to a live car, keeping unnamed fields.
    pub fn update_car_partial(&mut self, id: &CarId, dto: UpdateCarDto, now: i64) -> (r: Result<
        CarResponse,
        AppError,
    >)
        requires
            store_wf(*old(self)),
            now >= 0,
        ensures
            store_wf(*final(self)),
            same_but_cars(*old(self), *final(self)),
            match r {
                Ok(resp) => {
                    &&& valid_update_car(dto)
                    &&& old(self).live_car_index(id@) >= 0
                    &&& {
                        let i = old(self).live_car_index(id@);
                        &&& final(self).cars@ == old(self).cars@.update(i, final(self).cars@[i])
                        &&& exists|m: CarUpdateData|
                            merged_matches(m, dto, old(self).cars@[i]) && applied_update_matches(
                                final(self).cars@[i],
                                old(self).cars@[i],
                                m,
                                now as int,
                            )
                        &&& car_response_matches(resp, final(self).cars@[i])
                    }
                },
                Err(e) => {
                    &&& unchanged(*old(self), *final(self))
                    &&& if !valid_update_car(dto) {
                        e matches AppError::ValidationError(v) && crate::models::issues_match(
                            v,
                            update_car_issues(dto),
                        )
                    } else if old(self).live_car_index(id@) == -1 {
                        e == AppError::NotFound
                    } else {
                        old(self).cars@[old(self).live_car_index(id@)].version == i64::MAX && (
                        e matches AppError::DatabaseError(_))
                    }
                },
            },
    {
        let issues = validate_update_car(&dto);
        if !issues.is_empty() {
            return Err(AppError::ValidationError(issues));
        }
        match self.find_live_car(id.as_str()) {
            None => Err(AppError::NotFound),
            Some(i) => {
                if self.cars[i].version == i64::MAX {
                    return Err(AppError::DatabaseError(String::from_str("bigint out of range")));
                }
                let data = merge_update(dto, &self.cars[i]);
                let resp = self.apply_update(i, data, now);
                Ok(resp)
            },
        }
    }

    /// The version-guarded update: the caller names the version it read,
    /// and the row changes only if that version is still current — then
    /// the stored version is exactly one higher. On a version mismatch the
    /// row is unchanged and the conflict is reported.
    pub fn update_car_with_version(&mut self, id: &CarId, dto: UpdateCarDto, now: i64) -> (r:
        Result<CarResponse, AppError>)
        requires
            store_wf(*old(self)),
            now >= 0,
        ensures
            store_wf(*final(self)),
            same_but_cars(*old(self), *final(self)),
            match r {
                Ok(resp) => {
                    &&& valid_update_car(dto)
                    &&& dto.expected_version is Some
                    &&& old(self).live_car_index(id@) >= 0
                    &&& {
                        let i = old(self).live_car_index(id@);
                        &&& old(self).cars@[i].version == dto.expected_version.unwrap()
                        &&& final(self).cars@ == old(self).cars@.update(i, final(self).cars@[i])
                        &&& final(self).cars@[i].version == old(self).cars@[i].version + 1
                        &&& exists|m: CarUpdateData|
                            merged_matches(m, dto, old(self).cars@[i]) && applied_update_matches(
                                final(self).cars@[i],
                                old(self).cars@[i],
                                m,
                                now as int,
                            )
                        &&& car_response_matches(resp, final(self).cars@[i])
                    }
                },
                Err(e) => {
                    &&& unchanged(*old(self), *final(self))
                    &&& if dto.expected_version is None || !valid_update_car(dto) {
                        e matches AppError::ValidationError(_)
                    } else if old(self).live_car_index(id@) == -1 {
                        e == AppError::NotFound
                    } else if old(self).cars@[old(self).live_car_index(id@)].version
                        != dto.expected_version.unwrap() {
                        e == AppError::ConcurrentModification
                    } else {
                        old(self).cars@[old(self).live_car_index(id@)].version == i64::MAX && (
                        e matches AppError::DatabaseError(_))
                    }
                },
            },
    {
        let expected = match dto.expected_version {
            Some(v) => v,
            None => {
                return Err(AppError::ValidationError(crate::errors::ValidationIssues::new()));
            },
        };
        let issues = validate_update_car(&dto);
        if !issues.is_empty() {
            return Err(AppError::ValidationError(issues));
        }
        match self.find_live_car(id.as_str()) {
            None => Err(AppError::NotFound),
            Some(i) => {
                if self.cars[i].version != expected {
                    return Err(AppError::ConcurrentModification);
                }
                if self.cars[i].version == i64::MAX {
                    return Err(AppError::DatabaseError(String::from_str("bigint out of range")));
                }
                let data = merge_update(dto, &self.cars[i]);
                let resp = self.apply_update(i, data, now);
                Ok(resp)
            },
        }
    }

    /// Soft-deletes a live car: the row persists under its tombstone and
    /// disappears from every read and update path.
    pub fn delete_car(&mut self, id: &CarId, now: i64) -> (r: Result<(), AppError>)
        requires
            store_wf(*old(self)),
            now >= 0,
        ensures
            store_wf(*final(self)),
            same_but_cars(*old(self), *final(self)),
            match r {
                Ok(()) => {
                    &&& old(self).live_car_index(id@) >= 0
                    &&& {
                        let i = old(self).live_car_index(id@);
                        &&& final(self).cars@ == old(self).cars@.update(i, final(self).cars@[i])
                        &&& final(self).cars@[i] == CarEntity {
                            deleted_at: Some(now),
                            updated_at: now,
                            version: final(self).cars@[i].version,
                            ..old(self).cars@[i]
                        }
                        &&& final(self).cars@[i].version == old(self).cars@[i].version + 1
                    }
                },
                Err(e) => {
                    &&& unchanged(*old(self), *final(self))
                    &&& if old(self).live_car_index(id@) == -1 {
                        e == AppError::NotFound
                    } else {
                        old(self).cars@[old(self).live_car_index(id@)].version == i64::MAX && (
                        e matches AppError::DatabaseError(_))
                    }
                },
            },
            stock_covers_pending(*old(self), now as int) ==> stock_covers_pending(
                *final(self),
                now as int,
            ),
    {
        let ghost pre = *self;
        match self.find_live_car(id.as_str()) {
            None => Err(AppError::NotFound),
            Some(i) => {
                if self.cars[i].version == i64::MAX {
                    return Err(AppError::DatabaseError(String::from_str("bigint out of range")));
                }
                let c = &mut self.cars[i];
                c.deleted_at = Some(now);
                c.updated_at = now;
                c.version = c.version + 1;
                proof {
                    let posts = *self;
                    assert forall|a: int, b: int|
                        0 <= a < b < posts.cars@.len() implies posts.cars@[a].car_id@
                        != posts.cars@[b].car_id@ by {
                        assert(pre.cars@[a].car_id@ != pre.cars@[b].car_id@);
                    }
                    lemma_refs_ok_car_update(pre, posts, i as int, posts.cars@[i as int]);
                    if stock_covers_pending(pre, now as int) {
                        assert forall|j: int|
                            0 <= j < posts.cars@.len() && car_live(#[trigger] posts.cars@[j])
                            implies posts.cars@[j].quantity_in_stock >= pending_sum(
                            posts.reservations@,
                            posts.cars@[j].car_id@,
                            now as int,
                        ) by {
                            assert(posts.cars@[j] == pre.cars@[j]);
                        }
                    }
                }
                Ok(())
            },
        }
    }
}

/// The text name of a car status, as the listing filter matches it.
pub open spec fn car_status_chars(s: crate::models::CarStatus) -> Seq<char> {
    match s {
        crate::models::CarStatus::Available => "Available"@,
        crate::models::CarStatus::Sold => "Sold"@,
        crate::models::CarStatus::Reserved => "Reserved"@,
        crate::models::CarStatus::Maintenance => "Maintenance"@,
    }
}

/// The status a filter string names, if any.
pub open spec fn status_of_name(s: Seq<char>) -> Option<crate::models::CarStatus> {
    if s == "Available"@ {
        Some(crate::models::CarStatus::Available)
    } else if s == "Sold"@ {
        Some(crate::models::CarStatus::Sold)
    } else if s == "Reserved"@ {
        Some(crate::models::CarStatus::Reserved)
    } else if s == "Maintenance"@ {
        Some(crate::models::CarStatus::Maintenance)
    } else {
        None
    }
}

/// Parses a status filter string.
pub fn parse_status_name(s: &str) -> (r: Option<crate::models::CarStatus>)
    ensures
        r == status_of_name(s@),
{
    if crate::textutil::str_eq(s, "Available") {
        Some(crate::models::CarStatus::Available)
    } else if crate::textutil::str_eq(s, "Sold") {
        Some(crate::models::CarStatus::Sold)
    } else if crate::textutil::str_eq(s, "Reserved") {
        Some(crate::models::CarStatus::Reserved)
    } else if crate::textutil::str_eq(s, "Maintenance") {
        Some(crate::models::CarStatus::Maintenance)
    } else {
        None
    }
}

/// Which cars a listing query keeps: live, with the brand and status
/// filters applied when present.
pub open spec fn listing_keeps(
    c: CarEntity,
    brand: Option<Seq<char>>,
    status: Option<crate::models::CarStatus>,
) -> bool {
    &&& car_live(c)
    &&& (match brand {
        Some(b) => c.brand@ == b,
        None => true,
    })
    &&& (match status {
        Some(st) => c.status == st,
        None => true,
    })
}

impl InventoryStore {
    /// Lists cars: live rows in stored order, filtered by the optional
    /// brand and status, returned as the requested page with its
    /// metadata. An unknown status name is a database-level error, as the
    /// enum cast fails.
    #[verifier::loop_isolation(false)]
    pub fn get_cars(&self, query: crate::pagination::CarSearchQuery) -> (r: Result<
        crate::pagination::PaginatedResponse<CarResponse>,
        AppError,
    >)
        requires
            self.cars@.len() <= i64::MAX,
        ensures
            match r {
                Ok(resp) => {
                    &&& (match query.status {
                        Some(st) => status_of_name(st@) is Some,
                        None => true,
                    })
                    &&& {
                        let brand_f = crate::pagination::option_string_view(query.brand);
                        let status_f = (match query.status {
                            Some(st) => status_of_name(st@),
                            None => None,
                        });
                        let kept = crate::store::filter_seq(
                            self.cars@,
                            |c: CarEntity| listing_keeps(c, brand_f, status_f),
                        );
                        let page = crate::pagination::norm_page(query.page);
                        let size = crate::pagination::norm_page_size(query.page_size);
                        let off = (page - 1) * size;
                        let start = (if off <= kept.len() {
                            off as int
                        } else {
                            kept.len() as int
                        });
                        let stop = (if off + size <= kept.len() {
                            off + size
                        } else {
                            kept.len() as int
                        });
                        &&& resp.meta.total_records == kept.len()
                        &&& resp.meta.page == page
                        &&& resp.meta.page_size == size
                        &&& resp.meta.total_pages == crate::pagination::spec_total_pages(
                            kept.len() as int,
                            size as int,
                        )
                        &&& resp.data@.len() == stop - start
                        &&& exists|pairs: Seq<(String, CarResponse)>|
                            {
                                &&& pairs.len() == kept.len()
                                &&& (forall|k: int|
                                    0 <= k < kept.len() ==> (#[trigger] pairs[k]).0@ == kept[
                                        k
                                    ].car_id@ && car_response_matches(pairs[k].1, kept[k]))
                                &&& resp.data@ == crate::analytics::sort_by_name_spec(
                                    pairs,
                                ).map_values(|y: (String, CarResponse)| y.1).subrange(
                                    start,
                                    stop,
                                )
                            }
                    }
                },
                Err(e) => query.status is Some && status_of_name(
                    query.status.unwrap()@,
                ) is None && (e matches AppError::DatabaseError(_)),
            },
    {
        let status_filter: Option<crate::models::CarStatus> = match &query.status {
            Some(stext) => match parse_status_name(stext.as_str()) {
                Some(st) => Some(st),
                None => {
                    return Err(
                        AppError::DatabaseError(
                            String::from_str("invalid input value for enum car_status"),
                        ),
                    );
                },
            },
            None => None,
        };
        let ghost brand_f = crate::pagination::option_string_view(query.brand);
        let ghost p = |c: CarEntity| listing_keeps(c, brand_f, status_filter);
        let pagination = query.pagination();
        let (_, _, page, size) = pagination.normalize();
        let n = self.cars.len();
        let mut pairs: Vec<(String, CarResponse)> = Vec::new();
        let mut i: usize = 0;
        while i < n
            invariant
                i <= n,
                n == self.cars@.len(),
                pairs@.len() == crate::store::filter_seq(self.cars@.take(i as int), p).len(),
                forall|k: int|
                    0 <= k < pairs@.len() ==> (#[trigger] pairs@[k]).0@
                        == crate::store::filter_seq(self.cars@.take(i as int), p)[k].car_id@
                        && car_response_matches(
                        pairs@[k].1,
                        crate::store::filter_seq(self.cars@.take(i as int), p)[k],
                    ),
            decreases n - i,
        {
            proof {
                crate::store::lemma_filter_seq_take_step(self.cars@, p, i as int);
            }
            let c = &self.cars[i];
            let live = match c.deleted_at {
                Option::None => true,
                Option::Some(_) => false,
            };
            let brand_ok = match &query.brand {
                Some(b) => crate::textutil::str_eq(c.brand.as_str(), b.as_str()),
                None => true,
            };
            let status_ok = match status_filter {
                Some(st) => c.status == st,
                None => true,
            };
            if live && brand_ok && status_ok {
                pairs.push((String::from_str(c.car_id.as_str()), car_response_of(c)));
            }
            i += 1;
        }
        proof {
            crate::store::lemma_filter_seq_take_all(self.cars@, p);
            crate::store::lemma_filter_seq_len(self.cars@, p);
        }
        let ghost pairs_view = pairs@;
        let total = pairs.len();
        let sorted = crate::analytics::sort_by_name(pairs);
        proof {
            crate::analytics::lemma_sort_by_name_len(pairs_view);
        }
        let off_u: u64 = (page as u64 - 1) * (size as u64);
        let start: usize = if off_u <= total as u64 {
            off_u as usize
        } else {
            total
        };
        let stop: usize = if off_u + size as u64 <= total as u64 {
            (off_u + size as u64) as usize
        } else {
            total
        };
        let mut data: Vec<CarResponse> = Vec::new();
        let mut k: usize = start;
        while k < stop
            invariant
                start <= k <= stop,
                stop <= total,
                total == sorted@.len(),
                sorted@ == crate::analytics::sort_by_name_spec(pairs_view),
                data@.len() == k - start,
                forall|k2: int|
                    0 <= k2 < data@.len() ==> #[trigger] data@[k2] == sorted@[start + k2].1,
            decreases stop - k,
        {
            data.push(crate::analytics::clone_car_response(&sorted[k].1));
            k += 1;
        }
        proof {
            assert(data@ =~= crate::analytics::sort_by_name_spec(pairs_view).map_values(
                |y: (String, CarResponse)| y.1,
            ).subrange(start as int, stop as int));
        }
        Ok(crate::pagination::PaginatedResponse::new(data, total as i64, page, size))
    }
}

/// Round trip: after a successful creation the new identifier resolves to
/// exactly the stored row, which carries the request's fields. Together
/// with the lookup contract, what a client reads back equals what it
/// created, apart from the derived availability flag.
pub proof fn lemma_create_then_get(
    pre: InventoryStore,
    post: InventoryStore,
    dto: CreateCarDto,
    now: int,
)
    requires
        pre.any_car_index(dto.car_id@) == -1,
        post.cars@.len() == pre.cars@.len() + 1,
        post.cars@.subrange(0, pre.cars@.len() as int) == pre.cars@,
        created_car_matches(post.cars@.last(), dto, now),
    ensures
        post.live_car_index(dto.car_id@) == pre.cars@.len(),
        created_car_matches(post.cars@[post.live_car_index(dto.car_id@)], dto, now),
{
    crate::store::lemma_first_where_found(pre.cars@, |c: CarEntity| c.car_id@ == dto.car_id@);
    let live_p = |c: CarEntity| car_live(c) && c.car_id@ == dto.car_id@;
    assert forall|j: int| 0 <= j < pre.cars@.len() implies !live_p(#[trigger] post.cars@[j]) by {
        assert(post.cars@.subrange(0, pre.cars@.len() as int)[j] == post.cars@[j]);
        assert(post.cars@[j] == pre.cars@[j]);
    }
    assert(post.cars@[pre.cars@.len() as int] == post.cars@.last());
    assert(live_p(post.cars@[pre.cars@.len() as int]));
    crate::store::lemma_first_where_at(post.cars@, live_p, pre.cars@.len() as int);
}

} // verus!
