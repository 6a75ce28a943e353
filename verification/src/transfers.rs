//! Warehouses and the transfer engine. A transfer deducts the source
//! warehouse's stock when it is created and is then in transit; completing
//! it credits the destination, and cancelling an uncompleted transfer
//! credits the source back. Completed is terminal.

use crate::clock::clamped_now;
use crate::errors::AppError;
use crate::errors::TransferError;
use crate::errors::ValidationIssues;
use crate::ids::CarId;
use crate::ids::WarehouseId;
use crate::models::StockLocation;
use crate::models::StockTransferDto;
use crate::models::TransferOrder;
use crate::models::TransferStatus;
use crate::models::Warehouse;
use crate::models::issues_match;
use crate::store::InventoryStore;
use crate::store::filter_seq;
use crate::store::lemma_filter_seq_take_all;
use crate::store::lemma_filter_seq_take_step;
use crate::store::lemma_refs_ok_frame;
use crate::store::lemma_stock_covers_frame;
use crate::store::same_but_warehousing;
use crate::store::stock_covers_pending;
use crate::store::store_wf;
use crate::store::unchanged;
use crate::uuids::fresh_uuid_u128;
use vstd::prelude::*;

verus! {

/// The text name of a transfer status.
pub open spec fn transfer_status_chars(s: TransferStatus) -> Seq<char> {
    match s {
        TransferStatus::Pending => "Pending"@,
        TransferStatus::InTransit => "InTransit"@,
        TransferStatus::Completed => "Completed"@,
        TransferStatus::Cancelled => "Cancelled"@,
    }
}

/// Renders a transfer status name.
pub fn transfer_status_string(s: TransferStatus) -> (r: String)
    ensures
        r@ == transfer_status_chars(s),
{
    match s {
        TransferStatus::Pending => String::from_str("Pending"),
        TransferStatus::InTransit => String::from_str("InTransit"),
        TransferStatus::Completed => String::from_str("Completed"),
        TransferStatus::Cancelled => String::from_str("Cancelled"),
    }
}

/// A copy of a warehouse row.
pub fn clone_warehouse(w: &Warehouse) -> (r: Warehouse)
    ensures
        r == *w,
{
    Warehouse {
        warehouse_id: w.warehouse_id.duplicate(),
        name: w.name.clone(),
        location: w.location.clone(),
        latitude_microdeg: w.latitude_microdeg,
        longitude_microdeg: w.longitude_microdeg,
        capacity_total: w.capacity_total,
        capacity_used: w.capacity_used,
        is_active: w.is_active,
        created_at: w.created_at,
    }
}

/// A copy of a transfer order row.
pub fn clone_transfer(t: &TransferOrder) -> (r: TransferOrder)
    ensures
        r == *t,
{
    TransferOrder {
        transfer_id: t.transfer_id,
        from_warehouse_id: t.from_warehouse_id.duplicate(),
        to_warehouse_id: t.to_warehouse_id.duplicate(),
        car_id: t.car_id.duplicate(),
        quantity: t.quantity,
        status: t.status,
        requested_at: t.requested_at,
        completed_at: t.completed_at,
    }
}

/// The checks applied to a transfer request, in order.
pub open spec fn transfer_issues(dto: StockTransferDto) -> Seq<(Seq<char>, Seq<char>)> {
    (if dto.from_warehouse_id@.len() < 1 {
        seq![("from_warehouse_id"@, "Invalid value"@)]
    } else {
        Seq::empty()
    }) + (if dto.to_warehouse_id@.len() < 1 {
        seq![("to_warehouse_id"@, "Invalid value"@)]
    } else {
        Seq::empty()
    }) + (if dto.quantity < 1 {
        seq![("quantity"@, "Invalid value"@)]
    } else {
        Seq::empty()
    })
}

/// A transfer request with nothing to report.
pub open spec fn valid_transfer_dto(dto: StockTransferDto) -> bool {
    transfer_issues(dto).len() == 0
}

/// Validates a transfer request.
pub fn validate_transfer_dto(dto: &StockTransferDto) -> (r: ValidationIssues)
    ensures
        issues_match(r, transfer_issues(*dto)),
{
    let mut r = ValidationIssues::new();
    if dto.from_warehouse_id.as_str().unicode_len() < 1 {
        r.add("from_warehouse_id", "Invalid value");
    }
    if dto.to_warehouse_id.as_str().unicode_len() < 1 {
        r.add("to_warehouse_id", "Invalid value");
    }
    if dto.quantity < 1 {
        r.add("quantity", "Invalid value");
    }
    r
}

impl InventoryStore {
    /// Creates a warehouse: the identifier must be well formed, the
    /// capacity positive, and the identifier fresh.
    pub fn create_warehouse(
        &mut self,
        id: String,
        name: String,
        location: String,
        latitude_microdeg: Option<i64>,
        longitude_microdeg: Option<i64>,
        capacity_total: i32,
        now: i64,
    ) -> (r: Result<Warehouse, AppError>)
        requires
            store_wf(*old(self)),
            now >= 0,
        ensures
            store_wf(*final(self)),
            same_but_warehousing(*old(self), *final(self)),
            final(self).stock_locations@ == old(self).stock_locations@,
            final(self).transfers@ == old(self).transfers@,
            match r {
                Ok(w) => {
                    &&& crate::ids::valid_warehouse_id(id@)
                    &&& capacity_total >= 1
                    &&& old(self).warehouse_index(id@) == -1
                    &&& final(self).warehouses@ == old(self).warehouses@.push(w)
                    &&& w.warehouse_id@ == id@
                    &&& w.name == name
                    &&& w.location == location
                    &&& w.latitude_microdeg == latitude_microdeg
                    &&& w.longitude_microdeg == longitude_microdeg
                    &&& w.capacity_total == capacity_total
                    &&& w.capacity_used == 0
                    &&& w.is_active == true
                    &&& w.created_at == now
                },
                Err(e) => {
                    &&& unchanged(*old(self), *final(self))
                    &&& if !crate::ids::valid_warehouse_id(id@) {
                        e matches AppError::ValidationError(_)
                    } else if capacity_total < 1 {
                        e matches AppError::ValidationError(_)
                    } else {
                        old(self).warehouse_index(id@) >= 0 && (e matches
                        AppError::AlreadyExists(m) && m@ == "Warehouse"@)
                    }
                },
            },
    {
        let ghost pre = *self;
        let wid = match WarehouseId::new(id) {
            Ok(w) => w,
            Err(e) => {
                return Err(e);
            },
        };
        if capacity_total <= 0 {
            return Err(AppError::ValidationError(ValidationIssues::new()));
        }
        match self.find_warehouse(wid.as_str()) {
            Some(_) => Err(AppError::AlreadyExists(String::from_str("Warehouse"))),
            None => {
                let row = Warehouse {
                    warehouse_id: wid,
                    name,
                    location,
                    latitude_microdeg,
                    longitude_microdeg,
                    capacity_total,
                    capacity_used: 0,
                    is_active: true,
                    created_at: now,
                };
                let copy = clone_warehouse(&row);
                self.warehouses.push(row);
                proof {
                    let posts = *self;
                    assert forall|a: int, b: int|
                        0 <= a < b < posts.warehouses@.len() implies posts.warehouses@[
                        a
                    ].warehouse_id@ != posts.warehouses@[b].warehouse_id@ by {
                        if b < pre.warehouses@.len() {
                            assert(pre.warehouses@[a].warehouse_id@ != pre.warehouses@[
                                b
                            ].warehouse_id@);
                        }
                    }
                    lemma_refs_ok_frame(pre, posts);
                }
                Ok(copy)
            },
        }
    }

    /// Fetches a warehouse by identifier.
    pub fn get_warehouse(&self, id: &WarehouseId) -> (r: Result<Warehouse, AppError>)
        ensures
            match r {
                Ok(w) => self.warehouse_index(id@) >= 0 && w == self.warehouses@[
                    self.warehouse_index(id@)
                ],
                Err(e) => self.warehouse_index(id@) == -1 && (e matches
                AppError::WarehouseNotFound(m) && m@ == id@),
            },
    {
        match self.find_warehouse(id.as_str()) {
            Some(i) => Ok(clone_warehouse(&self.warehouses[i])),
            None => Err(AppError::WarehouseNotFound(String::from_str(id.as_str()))),
        }
    }

    /// Lists the active warehouses, ordered by name; equal names keep
    /// their stored order.
    #[verifier::loop_isolation(false)]
    pub fn list_warehouses(&self) -> (r: Vec<Warehouse>)
        ensures
            ({
                let kept = filter_seq(self.warehouses@, |w: Warehouse| w.is_active);
                exists|pairs: Seq<(String, Warehouse)>|
                    {
                        &&& pairs.len() == kept.len()
                        &&& (forall|k: int|
                            0 <= k < kept.len() ==> (#[trigger] pairs[k]).0@ == kept[k].name@
                                && pairs[k].1 == kept[k])
                        &&& r@ == crate::analytics::sort_by_name_spec(pairs).map_values(
                            |y: (String, Warehouse)| y.1,
                        )
                    }
            }),
    {
        let ghost p = |w: Warehouse| w.is_active;
        let n = self.warehouses.len();
        let mut pairs: Vec<(String, Warehouse)> = Vec::new();
        let mut i: usize = 0;
        while i < n
            invariant
                i <= n,
                n == self.warehouses@.len(),
                pairs@.len() == filter_seq(self.warehouses@.take(i as int), p).len(),
                forall|k: int|
                    0 <= k < pairs@.len() ==> (#[trigger] pairs@[k]).0@ == filter_seq(
                        self.warehouses@.take(i as int),
                        p,
                    )[k].name@ && pairs@[k].1 == filter_seq(
                        self.warehouses@.take(i as int),
                        p,
                    )[k],
            decreases n - i,
        {
            proof {
                lemma_filter_seq_take_step(self.warehouses@, p, i as int);
            }
            if self.warehouses[i].is_active {
                pairs.push(
                    (self.warehouses[i].name.clone(), clone_warehouse(&self.warehouses[i])),
                );
            }
            i += 1;
        }
        proof {
            lemma_filter_seq_take_all(self.warehouses@, p);
        }
        let ghost pairs_view = pairs@;
        let sorted = crate::analytics::sort_by_name(pairs);
        proof {
            crate::analytics::lemma_sort_by_name_len(pairs_view);
        }
        let m = sorted.len();
        let mut r: Vec<Warehouse> = Vec::new();
        let mut k: usize = 0;
        while k < m
            invariant
                k <= m,
                m == sorted@.len(),
                sorted@ == crate::analytics::sort_by_name_spec(pairs_view),
                r@.len() == k,
                forall|k2: int| 0 <= k2 < k ==> #[trigger] r@[k2] == sorted@[k2].1,
            decreases m - k,
        {
            r.push(clone_warehouse(&sorted[k].1));
            k += 1;
        }
        proof {
            assert(r@ =~= crate::analytics::sort_by_name_spec(pairs_view).map_values(
                |y: (String, Warehouse)| y.1,
            ));
        }
        r
    }

    /// Creates a transfer under an explicit clock reading and identity:
    /// checks the request, both warehouses and the source's available
    /// stock, then deducts the source and stores the order in transit.
    pub fn transfer_stock_with_id(&mut self, dto: StockTransferDto, tid: u128, now: i64) -> (r:
        Result<TransferOrder, AppError>)
        requires
            store_wf(*old(self)),
            now >= 0,
        ensures
            store_wf(*final(self)),
            same_but_warehousing(*old(self), *final(self)),
            final(self).warehouses@ == old(self).warehouses@,
            forall|t: int|
                stock_covers_pending(*old(self), t) ==> stock_covers_pending(*final(self), t),
            match r {
                Ok(order) => {
                    &&& valid_transfer_dto(dto)
                    &&& crate::ids::valid_warehouse_id(dto.from_warehouse_id@)
                    &&& crate::ids::valid_warehouse_id(dto.to_warehouse_id@)
                    &&& dto.from_warehouse_id@ != dto.to_warehouse_id@
                    &&& crate::ids::valid_car_id(dto.car_id@)
                    &&& old(self).warehouse_index(dto.from_warehouse_id@) >= 0
                    &&& old(self).warehouse_index(dto.to_warehouse_id@) >= 0
                    &&& old(self).transfer_index(tid) == -1
                    &&& {
                        let li = old(self).stock_location_index(
                            dto.from_warehouse_id@,
                            dto.car_id@,
                        );
                        &&& li >= 0
                        &&& old(self).stock_locations@[li].quantity - old(
                            self,
                        ).stock_locations@[li].reserved_quantity >= dto.quantity
                        &&& final(self).stock_locations@ == old(
                            self,
                        ).stock_locations@.update(li, final(self).stock_locations@[li])
                        &&& final(self).stock_locations@[li] == (StockLocation {
                            quantity: (old(self).stock_locations@[li].quantity
                                - dto.quantity) as i32,
                            last_updated: now,
                            ..old(self).stock_locations@[li]
                        })
                    }
                    &&& final(self).transfers@.len() == old(self).transfers@.len() + 1
                    &&& final(self).transfers@.subrange(0, old(self).transfers@.len() as int)
                        == old(self).transfers@
                    &&& order == final(self).transfers@.last()
                    &&& order.transfer_id == tid
                    &&& order.from_warehouse_id@ == dto.from_warehouse_id@
                    &&& order.to_warehouse_id@ == dto.to_warehouse_id@
                    &&& order.car_id@ == dto.car_id@
                    &&& order.quantity == dto.quantity
                    &&& order.status == TransferStatus::InTransit
                    &&& order.requested_at == now
                    &&& order.completed_at is None
                },
                Err(e) => {
                    &&& unchanged(*old(self), *final(self))
                    &&& {
                        let li = old(self).stock_location_index(
                            dto.from_warehouse_id@,
                            dto.car_id@,
                        );
                        let avail: int = if li >= 0 {
                            old(self).stock_locations@[li].quantity - old(
                                self,
                            ).stock_locations@[li].reserved_quantity
                        } else {
                            0
                        };
                        if !valid_transfer_dto(dto) {
                            e matches AppError::ValidationError(v) && issues_match(
                                v,
                                transfer_issues(dto),
                            )
                        } else if !crate::ids::valid_warehouse_id(dto.from_warehouse_id@)
                            || !crate::ids::valid_warehouse_id(dto.to_warehouse_id@) {
                            e matches AppError::ValidationError(_)
                        } else if dto.from_warehouse_id@ == dto.to_warehouse_id@ {
                            e matches AppError::InvalidWarehouseOperation(m) && m@
                                == "Source and destination cannot be the same"@
                        } else if !crate::ids::valid_car_id(dto.car_id@) {
                            e matches AppError::ValidationError(_)
                        } else if old(self).warehouse_index(dto.from_warehouse_id@) == -1 {
                            e matches AppError::TransferError(te) && (te matches
                            TransferError::SourceWarehouseNotFound(m) && m@
                                == dto.from_warehouse_id@)
                        } else if old(self).warehouse_index(dto.to_warehouse_id@) == -1 {
                            e matches AppError::TransferError(te) && (te matches
                            TransferError::DestinationWarehouseNotFound(m) && m@
                                == dto.to_warehouse_id@)
                        } else if avail < dto.quantity {
                            e matches AppError::TransferError(te) && te == (
                            TransferError::InsufficientStock {
                                available: avail as i32,
                                requested: dto.quantity,
                            })
                        } else {
                            old(self).transfer_index(tid) >= 0 && (e matches
                            AppError::DatabaseError(_))
                        }
                    }
                },
            },
    {
        let ghost pre = *self;
        let issues = validate_transfer_dto(&dto);
        if !issues.is_empty() {
            return Err(AppError::ValidationError(issues));
        }
        let StockTransferDto { from_warehouse_id, to_warehouse_id, car_id, quantity, reason: _ } =
            dto;
        let from_id = match WarehouseId::new(from_warehouse_id) {
            Ok(w) => w,
            Err(e) => {
                return Err(e);
            },
        };
        let to_id = match WarehouseId::new(to_warehouse_id) {
            Ok(w) => w,
            Err(e) => {
                return Err(e);
            },
        };
        if from_id == to_id {
            return Err(
                AppError::InvalidWarehouseOperation(
                    String::from_str("Source and destination cannot be the same"),
                ),
            );
        }
        let cid = match CarId::new(car_id) {
            Ok(c) => c,
            Err(e) => {
                return Err(e);
            },
        };
        if self.find_warehouse(from_id.as_str()).is_none() {
            return Err(
                AppError::TransferError(
                    TransferError::SourceWarehouseNotFound(String::from_str(from_id.as_str())),
                ),
            );
        }
        if self.find_warehouse(to_id.as_str()).is_none() {
            return Err(
                AppError::TransferError(
                    TransferError::DestinationWarehouseNotFound(String::from_str(to_id.as_str())),
                ),
            );
        }
        let li = self.find_stock_location(from_id.as_str(), cid.as_str());
        let avail: i32 = match li {
            Some(i) => self.stock_locations[i].quantity - self.stock_locations[i].reserved_quantity,
            None => 0,
        };
        if avail < quantity {
            return Err(
                AppError::TransferError(
                    TransferError::InsufficientStock { available: avail, requested: quantity },
                ),
            );
        }
        if self.find_transfer(tid).is_some() {
            return Err(
                AppError::DatabaseError(
                    String::from_str("duplicate key value violates unique constraint"),
                ),
            );
        }
        let i = li.unwrap();
        let loc = &mut self.stock_locations[i];
        loc.quantity = loc.quantity - quantity;
        loc.last_updated = now;
        let order = TransferOrder {
            transfer_id: tid,
            from_warehouse_id: from_id,
            to_warehouse_id: to_id,
            car_id: cid,
            quantity,
            status: TransferStatus::InTransit,
            requested_at: now,
            completed_at: None,
        };
        let copy = clone_transfer(&order);
        self.transfers.push(order);
        proof {
            let posts = *self;
            assert(posts.transfers@.subrange(0, pre.transfers@.len() as int)
                =~= pre.transfers@);
            assert forall|a: int, b: int|
                0 <= a < b < posts.transfers@.len() implies posts.transfers@[a].transfer_id
                != posts.transfers@[b].transfer_id by {
                if b < pre.transfers@.len() {
                    assert(pre.transfers@[a].transfer_id != pre.transfers@[b].transfer_id);
                } else {
                    assert(pre.transfers@[a].transfer_id != tid);
                }
            }
            assert forall|a: int, b: int|
                0 <= a < b < posts.stock_locations@.len() implies !(posts.stock_locations@[
                a
            ].warehouse_id@ == posts.stock_locations@[b].warehouse_id@
                && posts.stock_locations@[a].car_id@ == posts.stock_locations@[b].car_id@) by {
                assert(!(pre.stock_locations@[a].warehouse_id@ == pre.stock_locations@[
                    b
                ].warehouse_id@ && pre.stock_locations@[a].car_id@ == pre.stock_locations@[
                    b
                ].car_id@));
            }
            lemma_refs_ok_frame(pre, posts);
            lemma_stock_covers_frame(pre, posts);
        }
        Ok(copy)
    }

    /// Creates a transfer under the current wall clock and a fresh
    /// identity.
    pub fn transfer_stock(&mut self, dto: StockTransferDto) -> (r: Result<TransferOrder, AppError>)
        requires
            store_wf(*old(self)),
        ensures
            store_wf(*final(self)),
            same_but_warehousing(*old(self), *final(self)),
            final(self).warehouses@ == old(self).warehouses@,
            forall|t: int|
                stock_covers_pending(*old(self), t) ==> stock_covers_pending(*final(self), t),
            match r {
                Ok(order) => {
                    &&& order.status == TransferStatus::InTransit
                    &&& order.quantity == dto.quantity
                    &&& final(self).transfers@.len() == old(self).transfers@.len() + 1
                    &&& order == final(self).transfers@.last()
                    &&& {
                        let li = old(self).stock_location_index(
                            dto.from_warehouse_id@,
                            dto.car_id@,
                        );
                        &&& li >= 0
                        &&& final(self).stock_locations@ == old(
                            self,
                        ).stock_locations@.update(li, final(self).stock_locations@[li])
                        &&& final(self).stock_locations@[li].quantity == old(
                            self,
                        ).stock_locations@[li].quantity - dto.quantity
                    }
                },
                Err(e) => {
                    &&& unchanged(*old(self), *final(self))
                    &&& {
                        let li = old(self).stock_location_index(
                            dto.from_warehouse_id@,
                            dto.car_id@,
                        );
                        let avail: int = if li >= 0 {
                            old(self).stock_locations@[li].quantity - old(
                                self,
                            ).stock_locations@[li].reserved_quantity
                        } else {
                            0
                        };
                        if !valid_transfer_dto(dto) {
                            e matches AppError::ValidationError(v) && issues_match(
                                v,
                                transfer_issues(dto),
                            )
                        } else if !crate::ids::valid_warehouse_id(dto.from_warehouse_id@)
                            || !crate::ids::valid_warehouse_id(dto.to_warehouse_id@) {
                            e matches AppError::ValidationError(_)
                        } else if dto.from_warehouse_id@ == dto.to_warehouse_id@ {
                            e matches AppError::InvalidWarehouseOperation(m) && m@
                                == "Source and destination cannot be the same"@
                        } else if !crate::ids::valid_car_id(dto.car_id@) {
                            e matches AppError::ValidationError(_)
                        } else if old(self).warehouse_index(dto.from_warehouse_id@) == -1 {
                            e matches AppError::TransferError(te) && (te matches
                            TransferError::SourceWarehouseNotFound(m) && m@
                                == dto.from_warehouse_id@)
                        } else if old(self).warehouse_index(dto.to_warehouse_id@) == -1 {
                            e matches AppError::TransferError(te) && (te matches
                            TransferError::DestinationWarehouseNotFound(m) && m@
                                == dto.to_warehouse_id@)
                        } else if avail < dto.quantity {
                            e matches AppError::TransferError(te) && te == (
                            TransferError::InsufficientStock {
                                available: avail as i32,
                                requested: dto.quantity,
                            })
                        } else {
                            e matches AppError::DatabaseError(_)
                        }
                    }
                },
            },
    {
        let now = clamped_now();
        let tid = fresh_uuid_u128();
        self.transfer_stock_with_id(dto, tid, now)
    }

    /// Completes a transfer in transit under an explicit clock reading:
    /// credits the destination's stock row, creating it when absent, and
    /// marks the order completed.
    pub fn complete_transfer_at(&mut self, tid: u128, now: i64) -> (r: Result<
        TransferOrder,
        AppError,
    >)
        requires
            store_wf(*old(self)),
            now >= 0,
        ensures
            store_wf(*final(self)),
            same_but_warehousing(*old(self), *final(self)),
            final(self).warehouses@ == old(self).warehouses@,
            forall|t: int|
                stock_covers_pending(*old(self), t) ==> stock_covers_pending(*final(self), t),
            match r {
                Ok(order) => {
                    &&& old(self).transfer_index(tid) >= 0
                    &&& {
                        let ti = old(self).transfer_index(tid);
                        let q = old(self).transfers@[ti].quantity;
                        let di = old(self).stock_location_index(
                            old(self).transfers@[ti].to_warehouse_id@,
                            old(self).transfers@[ti].car_id@,
                        );
                        &&& old(self).transfers@[ti].status == TransferStatus::InTransit
                        &&& final(self).transfers@ == old(self).transfers@.update(
                            ti,
                            final(self).transfers@[ti],
                        )
                        &&& final(self).transfers@[ti] == (TransferOrder {
                            status: TransferStatus::Completed,
                            completed_at: Some(now),
                            ..old(self).transfers@[ti]
                        })
                        &&& order == final(self).transfers@[ti]
                        &&& if di >= 0 {
                            &&& old(self).stock_locations@[di].quantity + q <= i32::MAX
                            &&& final(self).stock_locations@ == old(
                                self,
                            ).stock_locations@.update(di, final(self).stock_locations@[di])
                            &&& final(self).stock_locations@[di] == (StockLocation {
                                quantity: (old(self).stock_locations@[di].quantity + q) as i32,
                                last_updated: now,
                                ..old(self).stock_locations@[di]
                            })
                        } else {
                            &&& final(self).stock_locations@.len() == old(
                                self,
                            ).stock_locations@.len() + 1
                            &&& final(self).stock_locations@.subrange(
                                0,
                                old(self).stock_locations@.len() as int,
                            ) == old(self).stock_locations@
                            &&& final(self).stock_locations@.last().warehouse_id@ == old(
                                self,
                            ).transfers@[ti].to_warehouse_id@
                            &&& final(self).stock_locations@.last().car_id@ == old(
                                self,
                            ).transfers@[ti].car_id@
                            &&& final(self).stock_locations@.last().quantity == q
                            &&& final(self).stock_locations@.last().reserved_quantity == 0
                        }
                    }
                },
                Err(e) => {
                    &&& unchanged(*old(self), *final(self))
                    &&& if old(self).transfer_index(tid) == -1 {
                        e == AppError::TransferNotFound(tid)
                    } else if old(self).transfers@[old(self).transfer_index(tid)].status
                        != TransferStatus::InTransit {
                        e matches AppError::TransferError(te) && (te matches
                        TransferError::InvalidState { expected, found } && expected@
                            == "InTransit"@ && found@ == transfer_status_chars(
                            old(self).transfers@[old(self).transfer_index(tid)].status,
                        ))
                    } else {
                        let ti = old(self).transfer_index(tid);
                        let di = old(self).stock_location_index(
                            old(self).transfers@[ti].to_warehouse_id@,
                            old(self).transfers@[ti].car_id@,
                        );
                        &&& di >= 0
                        &&& old(self).stock_locations@[di].quantity + old(
                            self,
                        ).transfers@[ti].quantity > i32::MAX
                        &&& e matches AppError::DatabaseError(_)
                    }
                },
            },
    {
        let ghost pre = *self;
        let ti = match self.find_transfer(tid) {
            Some(i) => i,
            None => {
                return Err(AppError::TransferNotFound(tid));
            },
        };
        proof {
            assert(crate::ids::valid_warehouse_id(self.transfers@[ti as int].from_warehouse_id@));
            assert(crate::ids::valid_warehouse_id(self.transfers@[ti as int].to_warehouse_id@));
            assert(crate::ids::valid_car_id(self.transfers@[ti as int].car_id@));
            assert(self.transfers@[ti as int].quantity >= 1);
        }
        if !(self.transfers[ti].status == TransferStatus::InTransit) {
            let found = transfer_status_string(self.transfers[ti].status);
            return Err(
                AppError::TransferError(
                    TransferError::InvalidState {
                        expected: String::from_str("InTransit"),
                        found,
                    },
                ),
            );
        }
        let q = self.transfers[ti].quantity;
        let to_str = String::from_str(self.transfers[ti].to_warehouse_id.as_str());
        let car_str = String::from_str(self.transfers[ti].car_id.as_str());
        match self.find_stock_location(to_str.as_str(), car_str.as_str()) {
            Some(di) => {
                if self.stock_locations[di].quantity > i32::MAX - q {
                    return Err(
                        AppError::DatabaseError(String::from_str("integer out of range")),
                    );
                }
                let loc = &mut self.stock_locations[di];
                loc.quantity = loc.quantity + q;
                loc.last_updated = now;
                proof {
                    let mid = *self;
                    assert forall|a: int, b: int|
                        0 <= a < b < mid.stock_locations@.len() implies !(mid.stock_locations@[
                        a
                    ].warehouse_id@ == mid.stock_locations@[b].warehouse_id@
                        && mid.stock_locations@[a].car_id@ == mid.stock_locations@[b].car_id@) by {
                        assert(!(pre.stock_locations@[a].warehouse_id@ == pre.stock_locations@[
                            b
                        ].warehouse_id@ && pre.stock_locations@[a].car_id@
                            == pre.stock_locations@[b].car_id@));
                    }
                }
            },
            None => {
                let wid = self.transfers[ti].to_warehouse_id.duplicate();
                let cid = self.transfers[ti].car_id.duplicate();
                let row = StockLocation {
                    warehouse_id: wid,
                    car_id: cid,
                    zone: String::new(),
                    quantity: q,
                    reserved_quantity: 0,
                    last_updated: now,
                };
                self.stock_locations.push(row);
                proof {
                    let mid = *self;
                    assert(mid.stock_locations@.subrange(0, pre.stock_locations@.len() as int)
                        =~= pre.stock_locations@);
                    assert forall|a: int, b: int|
                        0 <= a < b < mid.stock_locations@.len() implies !(mid.stock_locations@[
                        a
                    ].warehouse_id@ == mid.stock_locations@[b].warehouse_id@
                        && mid.stock_locations@[a].car_id@ == mid.stock_locations@[b].car_id@) by {
                        if b < pre.stock_locations@.len() {
                            assert(!(pre.stock_locations@[a].warehouse_id@
                                == pre.stock_locations@[b].warehouse_id@
                                && pre.stock_locations@[a].car_id@ == pre.stock_locations@[
                                b
                            ].car_id@));
                        }
                    }
                }
            },
        }
        let tr = &mut self.transfers[ti];
        tr.status = TransferStatus::Completed;
        tr.completed_at = Some(now);
        let copy = clone_transfer(&self.transfers[ti]);
        proof {
            let posts = *self;
            assert forall|a: int, b: int|
                0 <= a < b < posts.transfers@.len() implies posts.transfers@[a].transfer_id
                != posts.transfers@[b].transfer_id by {
                assert(pre.transfers@[a].transfer_id != pre.transfers@[b].transfer_id);
            }
            lemma_refs_ok_frame(pre, posts);
            lemma_stock_covers_frame(pre, posts);
        }
        Ok(copy)
    }

    /// Completes a transfer under the current wall clock.
    pub fn complete_transfer(&mut self, tid: u128) -> (r: Result<TransferOrder, AppError>)
        requires
            store_wf(*old(self)),
        ensures
            store_wf(*final(self)),
            same_but_warehousing(*old(self), *final(self)),
            final(self).warehouses@ == old(self).warehouses@,
            forall|t: int|
                stock_covers_pending(*old(self), t) ==> stock_covers_pending(*final(self), t),
            match r {
                Ok(order) => {
                    &&& old(self).transfer_index(tid) >= 0
                    &&& {
                        let ti = old(self).transfer_index(tid);
                        let q = old(self).transfers@[ti].quantity;
                        let di = old(self).stock_location_index(
                            old(self).transfers@[ti].to_warehouse_id@,
                            old(self).transfers@[ti].car_id@,
                        );
                        &&& old(self).transfers@[ti].status == TransferStatus::InTransit
                        &&& order.status == TransferStatus::Completed
                        &&& order.transfer_id == tid
                        &&& order.completed_at is Some
                        &&& final(self).transfers@ == old(self).transfers@.update(
                            ti,
                            final(self).transfers@[ti],
                        )
                        &&& final(self).transfers@[ti] == order
                        &&& if di >= 0 {
                            &&& final(self).stock_locations@ == old(
                                self,
                            ).stock_locations@.update(di, final(self).stock_locations@[di])
                            &&& final(self).stock_locations@[di].quantity == old(
                                self,
                            ).stock_locations@[di].quantity + q
                        } else {
                            &&& final(self).stock_locations@.len() == old(
                                self,
                            ).stock_locations@.len() + 1
                            &&& final(self).stock_locations@.subrange(
                                0,
                                old(self).stock_locations@.len() as int,
                            ) == old(self).stock_locations@
                            &&& final(self).stock_locations@.last().quantity == q
                            &&& final(self).stock_locations@.last().warehouse_id@ == old(
                                self,
                            ).transfers@[ti].to_warehouse_id@
                            &&& final(self).stock_locations@.last().car_id@ == old(
                                self,
                            ).transfers@[ti].car_id@
                        }
                    }
                },
                Err(e) => {
                    &&& unchanged(*old(self), *final(self))
                    &&& if old(self).transfer_index(tid) == -1 {
                        e == AppError::TransferNotFound(tid)
                    } else if old(self).transfers@[old(self).transfer_index(tid)].status
                        != TransferStatus::InTransit {
                        e matches AppError::TransferError(te) && (te matches
                        TransferError::InvalidState { expected, found } && expected@
                            == "InTransit"@ && found@ == transfer_status_chars(
                            old(self).transfers@[old(self).transfer_index(tid)].status,
                        ))
                    } else {
                        let ti = old(self).transfer_index(tid);
                        let di = old(self).stock_location_index(
                            old(self).transfers@[ti].to_warehouse_id@,
                            old(self).transfers@[ti].car_id@,
                        );
                        &&& di >= 0
                        &&& old(self).stock_locations@[di].quantity + old(
                            self,
                        ).transfers@[ti].quantity > i32::MAX
                        &&& e matches AppError::DatabaseError(_)
                    }
                },
            },
    {
        let ghost pre = *self;
        let now = clamped_now();
        let r = self.complete_transfer_at(tid, now);
        proof {
            if r is Ok {
                crate::store::lemma_first_where_found(
                    pre.transfers@,
                    |v: TransferOrder| v.transfer_id == tid,
                );
                let ti = pre.transfer_index(tid);
                crate::store::lemma_first_where_found(
                    pre.stock_locations@,
                    |l: StockLocation| l.warehouse_id@ == pre.transfers@[ti].to_warehouse_id@
                        && l.car_id@ == pre.transfers@[ti].car_id@,
                );
            }
        }
        r
    }

    /// Cancels a transfer that has not completed, under an explicit clock
    /// reading: the deducted stock is credited back to the source before
    /// the order is marked cancelled. A completed transfer stays as it is.
    #[verifier::rlimit(100)]
    #[verifier::spinoff_prover]
    pub fn cancel_transfer_at(&mut self, tid: u128, now: i64) -> (r: Result<
        TransferOrder,
        AppError,
    >)
        requires
            store_wf(*old(self)),
            now >= 0,
        ensures
            store_wf(*final(self)),
            same_but_warehousing(*old(self), *final(self)),
            final(self).warehouses@ == old(self).warehouses@,
            forall|t: int|
                stock_covers_pending(*old(self), t) ==> stock_covers_pending(*final(self), t),
            match r {
                Ok(order) => {
                    &&& old(self).transfer_index(tid) >= 0
                    &&& {
                        let ti = old(self).transfer_index(tid);
                        let q = old(self).transfers@[ti].quantity;
                        let si = old(self).stock_location_index(
                            old(self).transfers@[ti].from_warehouse_id@,
                            old(self).transfers@[ti].car_id@,
                        );
                        &&& (old(self).transfers@[ti].status == TransferStatus::Pending || old(
                            self,
                        ).transfers@[ti].status == TransferStatus::InTransit)
                        &&& final(self).transfers@ == old(self).transfers@.update(
                            ti,
                            final(self).transfers@[ti],
                        )
                        &&& final(self).transfers@[ti] == (TransferOrder {
                            status: TransferStatus::Cancelled,
                            ..old(self).transfers@[ti]
                        })
                        &&& order == final(self).transfers@[ti]
                        &&& if si >= 0 {
                            &&& old(self).stock_locations@[si].quantity + q <= i32::MAX
                            &&& final(self).stock_locations@ == old(
                                self,
                            ).stock_locations@.update(si, final(self).stock_locations@[si])
                            &&& final(self).stock_locations@[si] == (StockLocation {
                                quantity: (old(self).stock_locations@[si].quantity + q) as i32,
                                last_updated: now,
                                ..old(self).stock_locations@[si]
                            })
                        } else {
                            &&& final(self).stock_locations@.len() == old(
                                self,
                            ).stock_locations@.len() + 1
                            &&& final(self).stock_locations@.subrange(
                                0,
                                old(self).stock_locations@.len() as int,
                            ) == old(self).stock_locations@
                            &&& final(self).stock_locations@.last().warehouse_id@ == old(
                                self,
                            ).transfers@[ti].from_warehouse_id@
                            &&& final(self).stock_locations@.last().car_id@ == old(
                                self,
                            ).transfers@[ti].car_id@
                            &&& final(self).stock_locations@.last().quantity == q
                            &&& final(self).stock_locations@.last().reserved_quantity == 0
                        }
                    }
                },
                Err(e) => {
                    &&& unchanged(*old(self), *final(self))
                    &&& if old(self).transfer_index(tid) == -1 {
                        e == AppError::TransferNotFound(tid)
                    } else if old(self).transfers@[old(self).transfer_index(tid)].status
                        == TransferStatus::Completed || old(self).transfers@[old(
                        self,
                    ).transfer_index(tid)].status == TransferStatus::Cancelled {
                        e matches AppError::TransferError(te) && (te matches
                        TransferError::InvalidState { expected, found } && expected@
                            == "Pending or InTransit"@ && found@ == transfer_status_chars(
                            old(self).transfers@[old(self).transfer_index(tid)].status,
                        ))
                    } else {
                        let ti = old(self).transfer_index(tid);
                        let si = old(self).stock_location_index(
                            old(self).transfers@[ti].from_warehouse_id@,
                            old(self).transfers@[ti].car_id@,
                        );
                        &&& si >= 0
                        &&& old(self).stock_locations@[si].quantity + old(
                            self,
                        ).transfers@[ti].quantity > i32::MAX
                        &&& e matches AppError::DatabaseError(_)
                    }
                },
            },
    {
        let ghost pre = *self;
        let ti = match self.find_transfer(tid) {
            Some(i) => i,
            None => {
                return Err(AppError::TransferNotFound(tid));
            },
        };
        proof {
            assert(crate::ids::valid_warehouse_id(self.transfers@[ti as int].from_warehouse_id@));
            assert(crate::ids::valid_warehouse_id(self.transfers@[ti as int].to_warehouse_id@));
            assert(crate::ids::valid_car_id(self.transfers@[ti as int].car_id@));
            assert(self.transfers@[ti as int].quantity >= 1);
        }
        let st = self.transfers[ti].status;
        if st == TransferStatus::Completed || st == TransferStatus::Cancelled {
            let found = transfer_status_string(st);
            return Err(
                AppError::TransferError(
                    TransferError::InvalidState {
                        expected: String::from_str("Pending or InTransit"),
                        found,
                    },
                ),
            );
        }
        let q = self.transfers[ti].quantity;
        let from_str = String::from_str(self.transfers[ti].from_warehouse_id.as_str());
        let car_str = String::from_str(self.transfers[ti].car_id.as_str());
        match self.find_stock_location(from_str.as_str(), car_str.as_str()) {
            Some(si) => {
                if self.stock_locations[si].quantity > i32::MAX - q {
                    return Err(
                        AppError::DatabaseError(String::from_str("integer out of range")),
                    );
                }
                let loc = &mut self.stock_locations[si];
                loc.quantity = loc.quantity + q;
                loc.last_updated = now;
                proof {
                    let mid = *self;
                    assert forall|a: int, b: int|
                        0 <= a < b < mid.stock_locations@.len() implies !(mid.stock_locations@[
                        a
                    ].warehouse_id@ == mid.stock_locations@[b].warehouse_id@
                        && mid.stock_locations@[a].car_id@ == mid.stock_locations@[b].car_id@) by {
                        assert(!(pre.stock_locations@[a].warehouse_id@ == pre.stock_locations@[
                            b
                        ].warehouse_id@ && pre.stock_locations@[a].car_id@
                            == pre.stock_locations@[b].car_id@));
                    }
                }
            },
            None => {
                let wid = self.transfers[ti].from_warehouse_id.duplicate();
                let cid = self.transfers[ti].car_id.duplicate();
                let row = StockLocation {
                    warehouse_id: wid,
                    car_id: cid,
                    zone: String::new(),
                    quantity: q,
                    reserved_quantity: 0,
                    last_updated: now,
                };
                self.stock_locations.push(row);
                proof {
                    let mid = *self;
                    assert(mid.stock_locations@.subrange(0, pre.stock_locations@.len() as int)
                        =~= pre.stock_locations@);
                    assert forall|a: int, b: int|
                        0 <= a < b < mid.stock_locations@.len() implies !(mid.stock_locations@[
                        a
                    ].warehouse_id@ == mid.stock_locations@[b].warehouse_id@
                        && mid.stock_locations@[a].car_id@ == mid.stock_locations@[b].car_id@) by {
                        if b < pre.stock_locations@.len() {
                            assert(!(pre.stock_locations@[a].warehouse_id@
                                == pre.stock_locations@[b].warehouse_id@
                                && pre.stock_locations@[a].car_id@ == pre.stock_locations@[
                                b
                            ].car_id@));
                        }
                    }
                }
            },
        }
        let tr = &mut self.transfers[ti];
        tr.status = TransferStatus::Cancelled;
        let copy = clone_transfer(&self.transfers[ti]);
        proof {
            let posts = *self;
            assert forall|a: int, b: int|
                0 <= a < b < posts.transfers@.len() implies posts.transfers@[a].transfer_id
                != posts.transfers@[b].transfer_id by {
                assert(pre.transfers@[a].transfer_id != pre.transfers@[b].transfer_id);
            }
            lemma_refs_ok_frame(pre, posts);
            lemma_stock_covers_frame(pre, posts);
            assert forall|i2: int|
                0 <= i2 < posts.transfers@.len() implies {
                &&& crate::ids::valid_warehouse_id(
                    #[trigger] posts.transfers@[i2].from_warehouse_id@,
                )
                &&& crate::ids::valid_warehouse_id(posts.transfers@[i2].to_warehouse_id@)
                &&& crate::ids::valid_car_id(posts.transfers@[i2].car_id@)
                &&& posts.transfers@[i2].quantity >= 1
                &&& posts.transfers@[i2].from_warehouse_id@ != posts.transfers@[
                    i2
                ].to_warehouse_id@
            } by {
                assert(crate::ids::valid_warehouse_id(pre.transfers@[i2].from_warehouse_id@));
            }
            crate::store::lemma_rows_wf_parts(posts);
            assert(crate::store::keys_unique(posts));
            assert(store_wf(posts));
        }
        Ok(copy)
    }

    /// Fetches a transfer order by identifier.
    pub fn get_transfer(&self, tid: u128) -> (r: Result<TransferOrder, AppError>)
        ensures
            match r {
                Ok(order) => self.transfer_index(tid) >= 0 && order == self.transfers@[
                    self.transfer_index(tid)
                ],
                Err(e) => self.transfer_index(tid) == -1 && e == AppError::TransferNotFound(
                    tid,
                ),
            },
    {
        match self.find_transfer(tid) {
            Some(i) => Ok(clone_transfer(&self.transfers[i])),
            None => Err(AppError::TransferNotFound(tid)),
        }
    }
}

} // verus!
