use automobile_inventory::errors::AppError;
use automobile_inventory::errors::TransferError;
use automobile_inventory::ids::CarId;
use automobile_inventory::models::CarStatus;
use automobile_inventory::models::CreateCarDto;
use automobile_inventory::models::EngineType;
use automobile_inventory::models::StockLocation;
use automobile_inventory::models::StockTransferDto;
use automobile_inventory::models::TransferStatus;
use automobile_inventory::store::InventoryStore;

fn seeded_store() -> InventoryStore {
    let mut store = InventoryStore::new();
    store
        .create_car(
            CreateCarDto {
                car_id: String::from("C0001"),
                brand: String::from("Toyota"),
                model: String::from("Corolla"),
                year: 2024,
                color: String::from("Red"),
                engine_type: EngineType::Hybrid,
                transmission: String::from("Automatic"),
                price_cents: 100,
                quantity_in_stock: 10,
                status: CarStatus::Available,
            },
            1_000,
        )
        .unwrap();
    store
        .create_warehouse(
            String::from("W001"),
            String::from("North"),
            String::from("Oslo"),
            None,
            None,
            100,
            1_000,
        )
        .unwrap();
    store
        .create_warehouse(
            String::from("W002"),
            String::from("South"),
            String::from("Rome"),
            None,
            None,
            100,
            1_000,
        )
        .unwrap();
    // seed the source warehouse's stock row, as migrations would
    store.stock_locations.push(StockLocation {
        warehouse_id: automobile_inventory::ids::WarehouseId::new(String::from("W001")).unwrap(),
        car_id: CarId::new(String::from("C0001")).unwrap(),
        zone: String::from("A"),
        quantity: 10,
        reserved_quantity: 0,
        last_updated: 1_000,
    });
    store
}

fn transfer_dto(quantity: i32) -> StockTransferDto {
    StockTransferDto {
        from_warehouse_id: String::from("W001"),
        to_warehouse_id: String::from("W002"),
        car_id: String::from("C0001"),
        quantity,
        reason: None,
    }
}

#[test]
fn transfer_happy_path_deducts_then_credits() {
    let mut store = seeded_store();
    let order = store.transfer_stock_with_id(transfer_dto(3), 77, 2_000).unwrap();
    assert_eq!(order.status, TransferStatus::InTransit);
    assert_eq!(order.quantity, 3);
    assert_eq!(store.stock_locations[0].quantity, 7);
    let done = store.complete_transfer_at(77, 3_000).unwrap();
    assert_eq!(done.status, TransferStatus::Completed);
    assert_eq!(done.completed_at, Some(3_000));
    // destination row was created with the moved quantity
    assert_eq!(store.stock_locations.len(), 2);
    assert_eq!(store.stock_locations[1].warehouse_id.as_str(), "W002");
    assert_eq!(store.stock_locations[1].quantity, 3);
    assert_eq!(store.stock_locations[0].quantity, 7);
}

#[test]
fn transfer_insufficient_stock_conflicts_and_changes_nothing() {
    let mut store = seeded_store();
    match store.transfer_stock_with_id(transfer_dto(20), 78, 2_000) {
        Err(AppError::TransferError(TransferError::InsufficientStock {
            available,
            requested,
        })) => {
            assert_eq!(available, 10);
            assert_eq!(requested, 20);
        }
        _ => panic!("expected insufficient stock"),
    }
    assert_eq!(store.stock_locations[0].quantity, 10);
    assert_eq!(store.transfers.len(), 0);
}

#[test]
fn transfer_same_source_and_destination_rejected() {
    let mut store = seeded_store();
    let mut dto = transfer_dto(1);
    dto.to_warehouse_id = String::from("W001");
    match store.transfer_stock_with_id(dto, 79, 2_000) {
        Err(AppError::InvalidWarehouseOperation(m)) => {
            assert_eq!(m, "Source and destination cannot be the same");
        }
        _ => panic!("expected invalid warehouse operation"),
    }
}

#[test]
fn transfer_missing_source_warehouse_not_found() {
    let mut store = seeded_store();
    let mut dto = transfer_dto(1);
    dto.from_warehouse_id = String::from("W999");
    match store.transfer_stock_with_id(dto, 80, 2_000) {
        Err(AppError::TransferError(TransferError::SourceWarehouseNotFound(m))) => {
            assert_eq!(m, "W999");
        }
        _ => panic!("expected source warehouse not found"),
    }
}

#[test]
fn complete_requires_in_transit() {
    let mut store = seeded_store();
    store.transfer_stock_with_id(transfer_dto(2), 81, 2_000).unwrap();
    store.complete_transfer_at(81, 2_500).unwrap();
    match store.complete_transfer_at(81, 2_600) {
        Err(AppError::TransferError(TransferError::InvalidState { expected, found })) => {
            assert_eq!(expected, "InTransit");
            assert_eq!(found, "Completed");
        }
        _ => panic!("expected invalid state"),
    }
}

#[test]
fn complete_missing_transfer_not_found() {
    let mut store = seeded_store();
    match store.complete_transfer_at(404, 2_000) {
        Err(AppError::TransferNotFound(id)) => assert_eq!(id, 404),
        _ => panic!("expected transfer not found"),
    }
}

#[test]
fn cancel_credits_stock_back_to_source() {
    let mut store = seeded_store();
    store.transfer_stock_with_id(transfer_dto(4), 82, 2_000).unwrap();
    assert_eq!(store.stock_locations[0].quantity, 6);
    let cancelled = store.cancel_transfer_at(82, 2_500).unwrap();
    assert_eq!(cancelled.status, TransferStatus::Cancelled);
    assert_eq!(store.stock_locations[0].quantity, 10);
    // completed is terminal: cancelling again is an invalid state
    match store.cancel_transfer_at(82, 2_600) {
        Err(AppError::TransferError(TransferError::InvalidState { .. })) => {}
        _ => panic!("expected invalid state"),
    }
}

#[test]
fn warehouse_creation_rules() {
    let mut store = InventoryStore::new();
    match store.create_warehouse(
        String::from("W001"),
        String::from("North"),
        String::from("Oslo"),
        None,
        None,
        0,
        1_000,
    ) {
        Err(AppError::ValidationError(_)) => {}
        _ => panic!("capacity must be positive"),
    }
    store
        .create_warehouse(
            String::from("W001"),
            String::from("North"),
            String::from("Oslo"),
            Some(59_900_000),
            Some(10_750_000),
            50,
            1_000,
        )
        .unwrap();
    match store.create_warehouse(
        String::from("W001"),
        String::from("Other"),
        String::from("Oslo"),
        None,
        None,
        50,
        1_001,
    ) {
        Err(AppError::AlreadyExists(m)) => assert_eq!(m, "Warehouse"),
        _ => panic!("expected duplicate"),
    }
    let wid = automobile_inventory::ids::WarehouseId::new(String::from("W001")).unwrap();
    let w = store.get_warehouse(&wid).unwrap();
    assert_eq!(w.name, "North");
    assert_eq!(w.capacity_total, 50);
    assert!(w.is_active);
    assert_eq!(store.list_warehouses().len(), 1);
}

#[test]
fn warehouse_list_orders_by_name() {
    let mut store = InventoryStore::new();
    for (id, name) in [("W001", "South"), ("W002", "North"), ("W003", "Middle")] {
        store
            .create_warehouse(
                String::from(id),
                String::from(name),
                String::from("Somewhere"),
                None,
                None,
                10,
                1_000,
            )
            .unwrap();
    }
    let names: Vec<String> = store.list_warehouses().iter().map(|w| w.name.clone()).collect();
    assert_eq!(names, vec!["Middle", "North", "South"]);
}
