use automobile_inventory::errors::AppError;
use automobile_inventory::ids::CarId;
use automobile_inventory::ids::WarehouseId;
use automobile_inventory::models::CarStatus;
use automobile_inventory::models::CreateCarDto;
use automobile_inventory::models::EngineType;
use automobile_inventory::models::UpdateCarDto;
use automobile_inventory::pagination::CarSearchQuery;
use automobile_inventory::store::InventoryStore;

fn car_dto(id: &str, stock: i32) -> CreateCarDto {
    CreateCarDto {
        car_id: String::from(id),
        brand: String::from("Toyota"),
        model: String::from("Corolla"),
        year: 2024,
        color: String::from("Red"),
        engine_type: EngineType::Hybrid,
        transmission: String::from("Automatic"),
        price_cents: 2999999,
        quantity_in_stock: stock,
        status: CarStatus::Available,
    }
}

fn empty_update() -> UpdateCarDto {
    UpdateCarDto {
        brand: None,
        model: None,
        year: None,
        color: None,
        engine_type: None,
        transmission: None,
        price_cents: None,
        quantity_in_stock: None,
        status: None,
        expected_version: None,
    }
}

#[test]
fn create_then_get_round_trip() {
    let mut store = InventoryStore::new();
    let created = store.create_car(car_dto("C0001", 10), 5_000).unwrap();
    let cid = CarId::new(String::from("C0001")).unwrap();
    let fetched = store.get_car_by_id(&cid).unwrap();
    assert_eq!(fetched.id, "C0001");
    assert_eq!(fetched.brand, "Toyota");
    assert_eq!(fetched.model, "Corolla");
    assert_eq!(fetched.year, 2024);
    assert_eq!(fetched.price, "29999.99");
    assert!(fetched.is_available);
    assert_eq!(fetched.created_at, 5_000);
    assert_eq!(fetched.updated_at, 5_000);
    assert_eq!(fetched.deleted_at, None);
    assert_eq!(created.id, fetched.id);
    assert_eq!(created.price, fetched.price);
    assert_eq!(store.cars[0].version, 1);
}

#[test]
fn duplicate_car_id_conflicts() {
    let mut store = InventoryStore::new();
    store.create_car(car_dto("C0001", 1), 1_000).unwrap();
    match store.create_car(car_dto("C0001", 2), 1_001) {
        Err(AppError::AlreadyExists(m)) => assert_eq!(m, "Car already exists"),
        _ => panic!("expected conflict"),
    }
    assert_eq!(store.cars.len(), 1);
}

#[test]
fn create_car_validation_reports_fields() {
    let mut store = InventoryStore::new();
    let mut dto = car_dto("C1", 0);
    dto.brand = String::from("ab");
    match store.create_car(dto, 1_000) {
        Err(AppError::ValidationError(v)) => {
            let fields: Vec<&str> = v.entries.iter().map(|e| e.field.as_str()).collect();
            assert_eq!(fields, vec!["car_id", "brand", "quantity_in_stock"]);
            assert_eq!(v.entries[0].message, "ID cannot be empty");
            assert_eq!(v.entries[2].message, "Quantity must be at least 1");
        }
        _ => panic!("expected validation error"),
    }
}

#[test]
fn create_car_bad_prefix_is_client_validation_failure() {
    let mut store = InventoryStore::new();
    let dto = car_dto("X0001", 1);
    match store.create_car(dto, 1_000) {
        Err(e @ AppError::ValidationError(_)) => {
            assert_eq!(e.status_code(), 400);
            match e {
                AppError::ValidationError(v) => {
                    assert_eq!(v.entries.len(), 1);
                    assert_eq!(v.entries[0].field, "car_id");
                    assert_eq!(v.entries[0].message, "Invalid CarId format: X0001");
                }
                _ => unreachable!(),
            }
        }
        _ => panic!("expected validation error"),
    }
}

#[test]
fn versioned_update_bumps_exactly_once() {
    let mut store = InventoryStore::new();
    store.create_car(car_dto("C0001", 10), 1_000).unwrap();
    let cid = CarId::new(String::from("C0001")).unwrap();
    let mut patch = empty_update();
    patch.expected_version = Some(1);
    patch.brand = Some(String::from("Honda"));
    let updated = store.update_car_with_version(&cid, patch, 2_000).unwrap();
    assert_eq!(updated.brand, "Honda");
    assert_eq!(store.cars[0].version, 2);
    assert_eq!(updated.updated_at, 2_000);
}

#[test]
fn versioned_update_conflict_leaves_row_unchanged() {
    let mut store = InventoryStore::new();
    store.create_car(car_dto("C0001", 10), 1_000).unwrap();
    let cid = CarId::new(String::from("C0001")).unwrap();
    let mut first = empty_update();
    first.expected_version = Some(1);
    first.brand = Some(String::from("Honda"));
    store.update_car_with_version(&cid, first, 2_000).unwrap();
    // a concurrent writer read version 1 as well
    let mut second = empty_update();
    second.expected_version = Some(1);
    second.brand = Some(String::from("Mazda"));
    match store.update_car_with_version(&cid, second, 2_001) {
        Err(AppError::ConcurrentModification) => {}
        _ => panic!("expected concurrent-modification conflict"),
    }
    assert_eq!(store.cars[0].brand, "Honda");
    assert_eq!(store.cars[0].version, 2);
}

#[test]
fn versioned_update_requires_expected_version() {
    let mut store = InventoryStore::new();
    store.create_car(car_dto("C0001", 10), 1_000).unwrap();
    let cid = CarId::new(String::from("C0001")).unwrap();
    match store.update_car_with_version(&cid, empty_update(), 2_000) {
        Err(AppError::ValidationError(_)) => {}
        _ => panic!("expected validation error"),
    }
}

#[test]
fn partial_update_keeps_unnamed_fields() {
    let mut store = InventoryStore::new();
    store.create_car(car_dto("C0001", 10), 1_000).unwrap();
    let cid = CarId::new(String::from("C0001")).unwrap();
    let mut patch = empty_update();
    patch.year = Some(2020);
    let updated = store.update_car_partial(&cid, patch, 2_000).unwrap();
    assert_eq!(updated.year, 2020);
    assert_eq!(updated.brand, "Toyota");
    assert_eq!(store.cars[0].version, 2);
}

#[test]
fn soft_delete_hides_car_and_keeps_row() {
    let mut store = InventoryStore::new();
    store.create_car(car_dto("C0001", 10), 1_000).unwrap();
    let cid = CarId::new(String::from("C0001")).unwrap();
    store.delete_car(&cid, 3_000).unwrap();
    assert_eq!(store.cars.len(), 1);
    assert_eq!(store.cars[0].deleted_at, Some(3_000));
    match store.get_car_by_id(&cid) {
        Err(AppError::NotFound) => {}
        _ => panic!("deleted car must be invisible"),
    }
    match store.delete_car(&cid, 3_001) {
        Err(AppError::NotFound) => {}
        _ => panic!("second delete must be not found"),
    }
}

#[test]
fn listing_filters_and_pages() {
    let mut store = InventoryStore::new();
    for (i, brand) in [(1, "Toyota"), (2, "Honda"), (3, "Toyota"), (4, "Toyota")] {
        let mut dto = car_dto(&format!("C000{i}"), i);
        dto.brand = String::from(brand);
        store.create_car(dto, 1_000).unwrap();
    }
    let query = CarSearchQuery {
        page: Some(1),
        page_size: Some(2),
        brand: Some(String::from("Toyota")),
        status: None,
    };
    let page = store.get_cars(query).unwrap();
    assert_eq!(page.meta.total_records, 3);
    assert_eq!(page.meta.total_pages, 2);
    assert_eq!(page.data.len(), 2);
    assert_eq!(page.data[0].id, "C0001");
    assert_eq!(page.data[1].id, "C0003");
    let query2 = CarSearchQuery {
        page: Some(2),
        page_size: Some(2),
        brand: Some(String::from("Toyota")),
        status: None,
    };
    let page2 = store.get_cars(query2).unwrap();
    assert_eq!(page2.data.len(), 1);
    assert_eq!(page2.data[0].id, "C0004");
}

#[test]
fn listing_rejects_unknown_status_name() {
    let store = InventoryStore::new();
    let query = CarSearchQuery {
        page: None,
        page_size: None,
        brand: None,
        status: Some(String::from("Melting")),
    };
    match store.get_cars(query) {
        Err(AppError::DatabaseError(_)) => {}
        _ => panic!("unknown status must fail the enum cast"),
    }
}

#[test]
fn car_id_parsing_rules() {
    assert!(CarId::new(String::from("C0001")).is_ok());
    assert!(CarId::new(String::from("C00")).is_err());
    assert!(CarId::new(String::from("X0001")).is_err());
    assert!(CarId::new(String::from("")).is_err());
    let id = CarId::new(String::from("C12345")).unwrap();
    assert_eq!(id.as_str(), "C12345");
}

#[test]
fn warehouse_id_parsing_rules() {
    assert!(WarehouseId::new(String::from("W001")).is_ok());
    assert!(WarehouseId::new(String::from("W0")).is_err());
    match WarehouseId::new(String::from("A001")) {
        Err(AppError::ValidationError(v)) => {
            assert_eq!(v.entries[0].field, "warehouse_id");
            assert_eq!(v.entries[0].message, "Invalid WarehouseId format: A001. Must start with 'W'");
        }
        _ => panic!("expected validation error"),
    }
}

#[test]
fn listing_orders_by_car_id() {
    let mut store = InventoryStore::new();
    for id in ["C0003", "C0001", "C0002"] {
        store.create_car(car_dto(id, 1), 1_000).unwrap();
    }
    let query = CarSearchQuery { page: None, page_size: None, brand: None, status: None };
    let page = store.get_cars(query).unwrap();
    let ids: Vec<&str> = page.data.iter().map(|c| c.id.as_str()).collect();
    assert_eq!(ids, vec!["C0001", "C0002", "C0003"]);
}
