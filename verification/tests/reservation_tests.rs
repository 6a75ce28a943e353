use automobile_inventory::errors::AppError;
use automobile_inventory::ids::CarId;
use automobile_inventory::models::CarStatus;
use automobile_inventory::models::CreateCarDto;
use automobile_inventory::models::CreateReservationDto;
use automobile_inventory::models::EngineType;
use automobile_inventory::models::ReservationStatus;
use automobile_inventory::reservations::is_legal_transition;
use automobile_inventory::store::InventoryStore;

fn car_dto(id: &str, stock: i32) -> CreateCarDto {
    CreateCarDto {
        car_id: String::from(id),
        brand: String::from("Toyota"),
        model: String::from("Corolla"),
        year: 2024,
        color: String::from("Red"),
        engine_type: EngineType::Hybrid,
        transmission: String::from("Automatic"),
        price_cents: 2500050,
        quantity_in_stock: stock,
        status: CarStatus::Available,
    }
}

fn reservation_dto(quantity: i32, ttl_minutes: i32) -> CreateReservationDto {
    CreateReservationDto {
        quantity,
        reserved_by: String::from("customer-1"),
        ttl_minutes,
        metadata: None,
    }
}

fn store_with_car(id: &str, stock: i32) -> InventoryStore {
    let mut store = InventoryStore::new();
    store.create_car(car_dto(id, stock), 1_000).unwrap();
    store
}

#[test]
fn contended_reservations_split_five_five() {
    let mut store = store_with_car("C0001", 5);
    let cid = CarId::new(String::from("C0001")).unwrap();
    let now = 2_000i64;
    let mut created = 0;
    let mut refused = 0;
    for k in 0..10u128 {
        match store.create_reservation_with_id(&cid, reservation_dto(1, 15), 100 + k, now) {
            Ok(resp) => {
                assert_eq!(resp.status, ReservationStatus::Pending);
                assert_eq!(resp.quantity, 1);
                created += 1;
            }
            Err(AppError::InsufficientStock {
                requested,
                available,
            }) => {
                assert_eq!(requested, 1);
                assert_eq!(available, 0);
                refused += 1;
            }
            Err(_) => panic!("unexpected error"),
        }
    }
    assert_eq!(created, 5);
    assert_eq!(refused, 5);
    let pending: i32 = store
        .reservations
        .iter()
        .filter(|r| r.status == ReservationStatus::Pending)
        .map(|r| r.quantity)
        .sum();
    assert_eq!(pending, 5);
}

#[test]
fn reservation_expiry_restores_stock() {
    let mut store = store_with_car("C0001", 3);
    let cid = CarId::new(String::from("C0001")).unwrap();
    let created_at = 1_000i64;
    let resp = store
        .create_reservation_with_id(&cid, reservation_dto(2, 5), 7, created_at)
        .unwrap();
    assert_eq!(resp.expires_at, created_at + 5 * 60);
    // six minutes later the worker runs once
    let later = created_at + 6 * 60;
    let (expired, rollup) = store.tick(later);
    assert_eq!(expired.unwrap(), 1);
    assert!(rollup.is_ok());
    let got = store.get_reservation_at(7, later).unwrap();
    assert_eq!(got.status, ReservationStatus::Expired);
    // The worker credits the expired quantity back to the car, so the
    // stock rises above its starting level: reservations never deducted it.
    let car = store.get_car_by_id(&cid).unwrap();
    assert_eq!(car.price, "25000.50");
    assert_eq!(store.cars[0].quantity_in_stock, 5);
}

#[test]
fn tick_increments_stock_by_reserved_quantity() {
    let mut store = store_with_car("C0002", 4);
    let cid = CarId::new(String::from("C0002")).unwrap();
    let stock_before = store.cars[0].quantity_in_stock;
    store
        .create_reservation_with_id(&cid, reservation_dto(3, 5), 9, 1_000)
        .unwrap();
    let (expired, _) = store.tick(1_000 + 301);
    assert_eq!(expired.unwrap(), 1);
    assert_eq!(store.cars[0].quantity_in_stock, stock_before + 3);
    assert_eq!(store.reservations[0].status, ReservationStatus::Expired);
}

#[test]
fn cancel_twice_first_ok_second_not_found() {
    let mut store = store_with_car("C0003", 5);
    let cid = CarId::new(String::from("C0003")).unwrap();
    store
        .create_reservation_with_id(&cid, reservation_dto(1, 15), 11, 1_000)
        .unwrap();
    assert!(store.cancel_reservation_at(11, 1_100).is_ok());
    assert_eq!(store.reservations[0].status, ReservationStatus::Cancelled);
    match store.cancel_reservation_at(11, 1_200) {
        Err(AppError::ReservationNotFound) => {}
        _ => panic!("second cancel must report not found"),
    }
    assert_eq!(store.reservations[0].status, ReservationStatus::Cancelled);
}

#[test]
fn cancel_missing_reservation_not_found() {
    let mut store = store_with_car("C0004", 5);
    match store.cancel_reservation_at(999, 1_000) {
        Err(AppError::ReservationNotFound) => {}
        _ => panic!("expected not found"),
    }
}

#[test]
fn confirm_pending_reservation() {
    let mut store = store_with_car("C0005", 5);
    let cid = CarId::new(String::from("C0005")).unwrap();
    store
        .create_reservation_with_id(&cid, reservation_dto(2, 10), 21, 1_000)
        .unwrap();
    let resp = store.confirm_reservation_at(21, 1_100).unwrap();
    assert_eq!(resp.status, ReservationStatus::Confirmed);
}

#[test]
fn confirm_expired_reservation_rejected() {
    let mut store = store_with_car("C0006", 5);
    let cid = CarId::new(String::from("C0006")).unwrap();
    store
        .create_reservation_with_id(&cid, reservation_dto(2, 5), 22, 1_000)
        .unwrap();
    match store.confirm_reservation_at(22, 1_000 + 301) {
        Err(AppError::ReservationExpired) => {}
        _ => panic!("expected expired"),
    }
}

#[test]
fn confirm_cancelled_reservation_rejected() {
    let mut store = store_with_car("C0007", 5);
    let cid = CarId::new(String::from("C0007")).unwrap();
    store
        .create_reservation_with_id(&cid, reservation_dto(1, 10), 23, 1_000)
        .unwrap();
    store.cancel_reservation_at(23, 1_050).unwrap();
    match store.confirm_reservation_at(23, 1_100) {
        Err(AppError::BusinessRuleViolation(m)) => {
            assert_eq!(m, "Reservation is not pending");
        }
        _ => panic!("expected business rule violation"),
    }
}

#[test]
fn reservation_for_missing_car_not_found() {
    let mut store = InventoryStore::new();
    let cid = CarId::new(String::from("C9999")).unwrap();
    match store.create_reservation_with_id(&cid, reservation_dto(1, 10), 31, 1_000) {
        Err(AppError::NotFound) => {}
        _ => panic!("expected not found"),
    }
}

#[test]
fn reservation_validation_rejects_bad_ttl_and_quantity() {
    let mut store = store_with_car("C0008", 5);
    let cid = CarId::new(String::from("C0008")).unwrap();
    match store.create_reservation_with_id(&cid, reservation_dto(0, 10), 41, 1_000) {
        Err(AppError::ValidationError(v)) => {
            assert_eq!(v.entries.len(), 1);
            assert_eq!(v.entries[0].field, "quantity");
        }
        _ => panic!("expected validation error"),
    }
    match store.create_reservation_with_id(&cid, reservation_dto(1, 4), 42, 1_000) {
        Err(AppError::ValidationError(v)) => {
            assert_eq!(v.entries[0].field, "ttl_minutes");
        }
        _ => panic!("expected validation error"),
    }
    match store.create_reservation_with_id(&cid, reservation_dto(1, 1441), 43, 1_000) {
        Err(AppError::ValidationError(_)) => {}
        _ => panic!("expected validation error"),
    }
}

#[test]
fn status_transitions_follow_legal_graph_by_enumeration() {
    let all = [
        ReservationStatus::Pending,
        ReservationStatus::Confirmed,
        ReservationStatus::Expired,
        ReservationStatus::Cancelled,
        ReservationStatus::Completed,
    ];
    for from in all {
        for to in all {
            let expected = matches!(
                (from, to),
                (ReservationStatus::Pending, ReservationStatus::Confirmed)
                    | (ReservationStatus::Pending, ReservationStatus::Expired)
                    | (ReservationStatus::Pending, ReservationStatus::Cancelled)
                    | (ReservationStatus::Confirmed, ReservationStatus::Completed)
            );
            assert_eq!(is_legal_transition(from, to), expected);
        }
    }
}

#[test]
fn process_sale_confirms_and_deducts() {
    let mut store = store_with_car("C0009", 5);
    let cid = CarId::new(String::from("C0009")).unwrap();
    store
        .create_reservation_with_id(&cid, reservation_dto(2, 15), 51, 1_000)
        .unwrap();
    let receipt = store
        .process_sale_with_id(51, String::from("buyer-7"), 61, 1_100)
        .unwrap();
    assert_eq!(receipt.quantity, 2);
    assert_eq!(receipt.total_price_cents, 2 * 2500050u128);
    assert_eq!(store.cars[0].quantity_in_stock, 3);
    assert_eq!(store.reservations[0].status, ReservationStatus::Confirmed);
    assert_eq!(store.sales.len(), 1);
    assert_eq!(store.sales[0].quantity, 2);
}

#[test]
fn process_sale_marks_car_sold_at_zero_stock() {
    let mut store = store_with_car("C0010", 2);
    let cid = CarId::new(String::from("C0010")).unwrap();
    store
        .create_reservation_with_id(&cid, reservation_dto(2, 15), 52, 1_000)
        .unwrap();
    store
        .process_sale_with_id(52, String::from("buyer-8"), 62, 1_100)
        .unwrap();
    assert_eq!(store.cars[0].quantity_in_stock, 0);
    assert_eq!(store.cars[0].status, CarStatus::Sold);
}

#[test]
fn insufficient_stock_reports_remaining_availability() {
    let mut store = store_with_car("C0011", 5);
    let cid = CarId::new(String::from("C0011")).unwrap();
    store
        .create_reservation_with_id(&cid, reservation_dto(3, 15), 71, 1_000)
        .unwrap();
    match store.create_reservation_with_id(&cid, reservation_dto(4, 15), 72, 1_100) {
        Err(AppError::InsufficientStock {
            requested,
            available,
        }) => {
            assert_eq!(requested, 4);
            assert_eq!(available, 2);
        }
        _ => panic!("expected insufficient stock"),
    }
    assert_eq!(store.reservations.len(), 1);
}
