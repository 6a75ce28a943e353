//! The persisted entities of the inventory model, the validated input
//! shapes, and the response shapes built from them. Money is held in cents,
//! times as Unix seconds, and reservation metadata is carried through
//! opaquely as a JSON value.

use crate::errors::ValidationIssues;
use crate::ids::CarId;
use crate::ids::WarehouseId;
use crate::numfmt::decimal_chars;
use crate::numfmt::digit_char;
use vstd::prelude::*;

verus! {

/// Declares the JSON value type of `serde_json`, carried through the
/// reservation path without being inspected.
#[verifier::external_type_specification]
#[verifier::external_body]
pub struct ExSerdeJsonValue(serde_json::Value);

#[derive(Clone, Copy, Debug, PartialEq, Eq, Structural)]
pub enum CarStatus {
    Available,
    Sold,
    Reserved,
    Maintenance,
}

#[derive(Clone, Copy, Debug, PartialEq, Eq, Structural)]
pub enum EngineType {
    Electric,
    Hybrid,
    Gasoline,
    Diesel,
    Petrol,
}

#[derive(Clone, Copy, Debug, PartialEq, Eq, Structural)]
pub enum ReservationStatus {
    Pending,
    Confirmed,
    Expired,
    Cancelled,
    Completed,
}

#[derive(Clone, Copy, Debug, PartialEq, Eq, Structural)]
pub enum TransferStatus {
    Pending,
    InTransit,
    Completed,
    Cancelled,
}

#[derive(Clone, Copy, Debug, PartialEq, Eq, Structural)]
pub enum AlertLevel {
    Critical,
    Warning,
    Normal,
}

#[derive(Clone, Copy, Debug, PartialEq, Eq, Structural)]
pub enum ActionType {
    Reorder,
    TransferFromWarehouse,
    CancelPendingReservations,
    IncreasePrice,
    MarketingPush,
}

/// A car SKU row. `version` rises by exactly one on every mutation;
/// `deleted_at` is the soft-delete tombstone.
pub struct CarEntity {
    pub car_id: CarId,
    pub brand: String,
    pub model: String,
    pub year: i32,
    pub color: Option<String>,
    pub engine_type: EngineType,
    pub transmission: Option<String>,
    pub price_cents: u64,
    pub quantity_in_stock: i32,
    pub status: CarStatus,
    pub reorder_point: i32,
    pub economic_order_qty: i32,
    pub version: i64,
    pub created_at: i64,
    pub updated_at: i64,
    pub deleted_at: Option<i64>,
}

/// A reservation row: a time-bounded hold on a quantity of one car.
pub struct Reservation {
    pub id: u128,
    pub car_id: CarId,
    pub quantity: i32,
    pub reserved_by: String,
    pub expires_at: i64,
    pub status: ReservationStatus,
    pub created_at: i64,
    pub updated_at: i64,
    pub metadata: Option<serde_json::Value>,
}

/// A warehouse row. Coordinates are held in microdegrees.
pub struct Warehouse {
    pub warehouse_id: WarehouseId,
    pub name: String,
    pub location: String,
    pub latitude_microdeg: Option<i64>,
    pub longitude_microdeg: Option<i64>,
    pub capacity_total: i32,
    pub capacity_used: i32,
    pub is_active: bool,
    pub created_at: i64,
}

/// Stock of one car in one warehouse; `reserved_quantity` never exceeds
/// `quantity`.
pub struct StockLocation {
    pub warehouse_id: WarehouseId,
    pub car_id: CarId,
    pub zone: String,
    pub quantity: i32,
    pub reserved_quantity: i32,
    pub last_updated: i64,
}

/// A two-warehouse stock movement order.
pub struct TransferOrder {
    pub transfer_id: u128,
    pub from_warehouse_id: WarehouseId,
    pub to_warehouse_id: WarehouseId,
    pub car_id: CarId,
    pub quantity: i32,
    pub status: TransferStatus,
    pub requested_at: i64,
    pub completed_at: Option<i64>,
}

/// An append-only sale record, read only by analytics.
pub struct SaleRecord {
    pub sale_id: u128,
    pub car_id: CarId,
    pub quantity: i32,
    pub price_cents: u64,
    pub customer_id: Option<String>,
    pub sold_at: i64,
}

/// One hourly rollup row, keyed by the truncated hour.
pub struct MetricsRow {
    pub metric_hour: i64,
    pub total_cars: i64,
    pub total_value_cents: u128,
    pub active_reservations: i64,
    pub reserved_units: i64,
    pub low_stock_count: i64,
    pub available_stock_value_cents: u128,
}

/// Input for creating a car.
pub struct CreateCarDto {
    pub car_id: String,
    pub brand: String,
    pub model: String,
    pub year: i32,
    pub color: String,
    pub engine_type: EngineType,
    pub transmission: String,
    pub price_cents: u64,
    pub quantity_in_stock: i32,
    pub status: CarStatus,
}

/// Input for a partial update; absent fields keep their current values.
pub struct UpdateCarDto {
    pub brand: Option<String>,
    pub model: Option<String>,
    pub year: Option<i32>,
    pub color: Option<String>,
    pub engine_type: Option<EngineType>,
    pub transmission: Option<String>,
    pub price_cents: Option<u64>,
    pub quantity_in_stock: Option<i32>,
    pub status: Option<CarStatus>,
    pub expected_version: Option<i64>,
}

/// A fully merged update, ready to apply to a car row.
pub struct CarUpdateData {
    pub brand: String,
    pub model: String,
    pub year: i32,
    pub color: String,
    pub engine_type: EngineType,
    pub transmission: String,
    pub price_cents: u64,
    pub quantity_in_stock: i32,
    pub status: CarStatus,
}

/// Input for creating a reservation.
pub struct CreateReservationDto {
    pub quantity: i32,
    pub reserved_by: String,
    pub ttl_minutes: i32,
    pub metadata: Option<serde_json::Value>,
}

/// The reservation time-to-live applied when a client names none.
pub fn default_reservation_ttl_minutes() -> (r: i32)
    ensures
        r == 15,
{
    15
}

/// Input for confirming a reservation.
pub struct ConfirmReservationDto {
    pub payment_reference: Option<String>,
}

/// Input for a stock transfer between warehouses.
pub struct StockTransferDto {
    pub from_warehouse_id: String,
    pub to_warehouse_id: String,
    pub car_id: String,
    pub quantity: i32,
    pub reason: Option<String>,
}

/// The client-facing shape of a car.
pub struct CarResponse {
    pub id: String,
    pub brand: String,
    pub model: String,
    pub year: i32,
    pub price: String,
    pub is_available: bool,
    pub created_at: i64,
    pub updated_at: i64,
    pub deleted_at: Option<i64>,
}

/// The decimal rendering of a price in cents: dollars, a point, and two
/// cent digits.
pub open spec fn price_chars(cents: int) -> Seq<char> {
    decimal_chars(cents / 100) + seq!['.'] + seq![
        digit_char((cents / 10) % 10),
        digit_char(cents % 10),
    ]
}

/// Renders a price held in cents.
pub fn price_string(cents: u64) -> (r: String)
    ensures
        r@ == price_chars(cents as int),
{
    let mut s = crate::numfmt::u64_to_string(cents / 100);
    s.append(".");
    let tens = crate::numfmt::u64_to_string((cents / 10) % 10);
    s.append(tens.as_str());
    let ones = crate::numfmt::u64_to_string(cents % 10);
    s.append(ones.as_str());
    proof {
        reveal_strlit(".");
        assert(s@ =~= price_chars(cents as int));
    }
    s
}

/// The response fields a car entity maps to.
pub open spec fn car_response_matches(r: CarResponse, c: CarEntity) -> bool {
    &&& r.id@ == c.car_id@
    &&& r.brand@ == c.brand@
    &&& r.model@ == c.model@
    &&& r.year == c.year
    &&& r.price@ == price_chars(c.price_cents as int)
    &&& r.is_available == (c.quantity_in_stock > 0)
    &&& r.created_at == c.created_at
    &&& r.updated_at == c.updated_at
    &&& r.deleted_at == c.deleted_at
}

/// Builds the client-facing shape of a car.
pub fn car_response_of(c: &CarEntity) -> (r: CarResponse)
    ensures
        car_response_matches(r, *c),
{
    CarResponse {
        id: String::from_str(c.car_id.as_str()),
        brand: c.brand.clone(),
        model: c.model.clone(),
        year: c.year,
        price: price_string(c.price_cents),
        is_available: c.quantity_in_stock > 0,
        created_at: c.created_at,
        updated_at: c.updated_at,
        deleted_at: c.deleted_at,
    }
}

/// The client-facing shape of a reservation.
pub struct ReservationResponse {
    pub id: u128,
    pub car_id: String,
    pub quantity: i32,
    pub status: ReservationStatus,
    pub expires_at: i64,
    pub time_remaining_seconds: i64,
}

/// The response fields a reservation maps to at time `now`.
pub open spec fn reservation_response_matches(
    r: ReservationResponse,
    v: Reservation,
    now: int,
) -> bool {
    &&& r.id == v.id
    &&& r.car_id@ == v.car_id@
    &&& r.quantity == v.quantity
    &&& r.status == v.status
    &&& r.expires_at == v.expires_at
    &&& r.time_remaining_seconds == (if v.expires_at - now > 0 {
        v.expires_at - now
    } else {
        0
    })
}

/// Builds the client-facing shape of a reservation at time `now`.
pub fn reservation_response_of(v: &Reservation, now: i64) -> (r: ReservationResponse)
    requires
        now >= 0,
        v.expires_at >= 0,
    ensures
        reservation_response_matches(r, *v, now as int),
{
    let remaining: i64 = if v.expires_at > now {
        v.expires_at - now
    } else {
        0
    };
    ReservationResponse {
        id: v.id,
        car_id: String::from_str(v.car_id.as_str()),
        quantity: v.quantity,
        status: v.status,
        expires_at: v.expires_at,
        time_remaining_seconds: remaining,
    }
}

/// One warehouse stock line in a warehouse detail response.
pub struct StockLocationDetail {
    pub car_id: String,
    pub brand: String,
    pub model: String,
    pub zone: String,
    pub quantity: i32,
    pub reserved: i32,
    pub available: i32,
}

/// The checks applied to a car creation request, in order; each failed
/// check contributes one field finding.
pub open spec fn create_car_issues(dto: CreateCarDto) -> Seq<(Seq<char>, Seq<char>)> {
    (if dto.car_id@.len() < 5 {
        seq![("car_id"@, "ID cannot be empty"@)]
    } else {
        Seq::empty()
    }) + (if !(3 <= dto.brand@.len() <= 50) {
        seq![("brand"@, "Invalid value"@)]
    } else {
        Seq::empty()
    }) + (if !(3 <= dto.model@.len() <= 100) {
        seq![("model"@, "Model is required"@)]
    } else {
        Seq::empty()
    }) + (if !(1886 <= dto.year <= 2026) {
        seq![("year"@, "Invalid value"@)]
    } else {
        Seq::empty()
    }) + (if !(3 <= dto.color@.len() <= 30) {
        seq![("color"@, "Invalid value"@)]
    } else {
        Seq::empty()
    }) + (if !(3 <= dto.transmission@.len() <= 20) {
        seq![("transmission"@, "Invalid value"@)]
    } else {
        Seq::empty()
    }) + (if dto.quantity_in_stock < 1 {
        seq![("quantity_in_stock"@, "Quantity must be at least 1"@)]
    } else {
        Seq::empty()
    })
}

/// A car creation request with nothing to report.
pub open spec fn valid_create_car(dto: CreateCarDto) -> bool {
    create_car_issues(dto).len() == 0
}

/// Validates a car creation request; the findings are exactly the failed
/// checks, in order.
pub fn validate_create_car(dto: &CreateCarDto) -> (r: ValidationIssues)
    ensures
        issues_match(r, create_car_issues(*dto)),
{
    let mut r = ValidationIssues::new();
    if dto.car_id.as_str().unicode_len() < 5 {
        r.add("car_id", "ID cannot be empty");
    }
    let bl = dto.brand.as_str().unicode_len();
    if !(3 <= bl && bl <= 50) {
        r.add("brand", "Invalid value");
    }
    let ml = dto.model.as_str().unicode_len();
    if !(3 <= ml && ml <= 100) {
        r.add("model", "Model is required");
    }
    if !(1886 <= dto.year && dto.year <= 2026) {
        r.add("year", "Invalid value");
    }
    let cl = dto.color.as_str().unicode_len();
    if !(3 <= cl && cl <= 30) {
        r.add("color", "Invalid value");
    }
    let tl = dto.transmission.as_str().unicode_len();
    if !(3 <= tl && tl <= 20) {
        r.add("transmission", "Invalid value");
    }
    if dto.quantity_in_stock < 1 {
        r.add("quantity_in_stock", "Quantity must be at least 1");
    }
    r
}

/// The findings equal the given field/message pairs, in order.
pub open spec fn issues_match(r: ValidationIssues, expected: Seq<(Seq<char>, Seq<char>)>) -> bool {
    &&& r.entries@.len() == expected.len()
    &&& forall|i: int|
        0 <= i < expected.len() ==> r.entries@[i].field@ == expected[i].0
            && r.entries@[i].message@ == expected[i].1
}


/// The checks applied to a reservation creation request, in order.
pub open spec fn create_reservation_issues(dto: CreateReservationDto) -> Seq<
    (Seq<char>, Seq<char>),
> {
    (if dto.quantity < 1 {
        seq![("quantity"@, "Quantity must be at least 1"@)]
    } else {
        Seq::empty()
    }) + (if !(1 <= dto.reserved_by@.len() <= 100) {
        seq![("reserved_by"@, "Invalid value"@)]
    } else {
        Seq::empty()
    }) + (if !(5 <= dto.ttl_minutes <= 1440) {
        seq![("ttl_minutes"@, "Invalid value"@)]
    } else {
        Seq::empty()
    })
}

/// A reservation creation request with nothing to report.
pub open spec fn valid_create_reservation(dto: CreateReservationDto) -> bool {
    create_reservation_issues(dto).len() == 0
}

/// Validates a reservation creation request.
pub fn validate_create_reservation(dto: &CreateReservationDto) -> (r: ValidationIssues)
    ensures
        issues_match(r, create_reservation_issues(*dto)),
{
    let mut r = ValidationIssues::new();
    if dto.quantity < 1 {
        r.add("quantity", "Quantity must be at least 1");
    }
    let rl = dto.reserved_by.as_str().unicode_len();
    if !(1 <= rl && rl <= 100) {
        r.add("reserved_by", "Invalid value");
    }
    if !(5 <= dto.ttl_minutes && dto.ttl_minutes <= 1440) {
        r.add("ttl_minutes", "Invalid value");
    }
    r
}

/// The checks applied to a car update request, in order; absent fields are
/// not checked.
pub open spec fn update_car_issues(dto: UpdateCarDto) -> Seq<(Seq<char>, Seq<char>)> {
    (match dto.brand {
        Some(b) => if !(3 <= b@.len() <= 50) {
            seq![("brand"@, "Invalid value"@)]
        } else {
            Seq::empty()
        },
        None => Seq::empty(),
    }) + (match dto.model {
        Some(m) => if !(3 <= m@.len() <= 100) {
            seq![("model"@, "Invalid value"@)]
        } else {
            Seq::empty()
        },
        None => Seq::empty(),
    }) + (match dto.year {
        Some(y) => if !(1886 <= y <= 2026) {
            seq![("year"@, "Invalid value"@)]
        } else {
            Seq::empty()
        },
        None => Seq::empty(),
    }) + (match dto.color {
        Some(c) => if !(3 <= c@.len() <= 30) {
            seq![("color"@, "Invalid value"@)]
        } else {
            Seq::empty()
        },
        None => Seq::empty(),
    }) + (match dto.transmission {
        Some(t) => if !(3 <= t@.len() <= 20) {
            seq![("transmission"@, "Invalid value"@)]
        } else {
            Seq::empty()
        },
        None => Seq::empty(),
    }) + (match dto.quantity_in_stock {
        Some(q) => if q < 0 {
            seq![("quantity_in_stock"@, "Invalid value"@)]
        } else {
            Seq::empty()
        },
        None => Seq::empty(),
    })
}

/// A car update request with nothing to report.
pub open spec fn valid_update_car(dto: UpdateCarDto) -> bool {
    update_car_issues(dto).len() == 0
}

/// Validates a car update request.
pub fn validate_update_car(dto: &UpdateCarDto) -> (r: ValidationIssues)
    ensures
        issues_match(r, update_car_issues(*dto)),
{
    let mut r = ValidationIssues::new();
    match &dto.brand {
        Some(b) => {
            let l = b.as_str().unicode_len();
            if !(3 <= l && l <= 50) {
                r.add("brand", "Invalid value");
            }
        },
        None => {},
    }
    match &dto.model {
        Some(m) => {
            let l = m.as_str().unicode_len();
            if !(3 <= l && l <= 100) {
                r.add("model", "Invalid value");
            }
        },
        None => {},
    }
    match &dto.year {
        Some(y) => {
            if !(1886 <= *y && *y <= 2026) {
                r.add("year", "Invalid value");
            }
        },
        None => {},
    }
    match &dto.color {
        Some(c) => {
            let l = c.as_str().unicode_len();
            if !(3 <= l && l <= 30) {
                r.add("color", "Invalid value");
            }
        },
        None => {},
    }
    match &dto.transmission {
        Some(t) => {
            let l = t.as_str().unicode_len();
            if !(3 <= l && l <= 20) {
                r.add("transmission", "Invalid value");
            }
        },
        None => {},
    }
    match &dto.quantity_in_stock {
        Some(q) => {
            if *q < 0 {
                r.add("quantity_in_stock", "Invalid value");
            }
        },
        None => {},
    }
    r
}

/// A stock movement trend, with a percentage where one is estimated.
pub enum StockTrend {
    Increasing(i32),
    Decreasing(i32),
    Stable,
}

/// What the alert report suggests doing, with 1 as the highest priority.
pub struct SuggestedAction {
    pub action_type: ActionType,
    pub description: String,
    pub priority: i32,
}

/// One row of the stock alert report. The recent sales rate is held in
/// thousandths of a unit per sale.
pub struct StockAlert {
    pub car_id: CarId,
    pub brand: String,
    pub model: String,
    pub current_stock: i32,
    pub reserved_stock: i64,
    pub available_stock: i32,
    pub reorder_point: i32,
    pub economic_order_qty: i32,
    pub alert_level: AlertLevel,
    pub trend: StockTrend,
    pub avg_daily_sales_milli: Option<i64>,
    pub days_until_stockout: Option<i32>,
    pub suggested_action: SuggestedAction,
}

/// The alert report with its severity counts.
pub struct InventoryAlertSummary {
    pub critical_count: i64,
    pub warning_count: i64,
    pub total_alerts: i64,
    pub alerts: Vec<StockAlert>,
}

/// One row of the sales velocity report. The daily rate is held in
/// thousandths of a unit per day.
pub struct SalesVelocity {
    pub car_id: CarId,
    pub brand: String,
    pub model: String,
    pub avg_daily_sales_milli: i64,
    pub last_30_days_sales: i64,
    pub last_7_days_sales: i64,
    pub trend_direction: String,
}

} // verus!
