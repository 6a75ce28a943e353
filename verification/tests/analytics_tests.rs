use automobile_inventory::ids::CarId;
use automobile_inventory::models::AlertLevel;
use automobile_inventory::models::CarStatus;
use automobile_inventory::models::CreateCarDto;
use automobile_inventory::models::EngineType;
use automobile_inventory::models::SaleRecord;
use automobile_inventory::store::InventoryStore;

fn dto(id: &str, brand: &str, year: i32, stock: i32, price_cents: u64, status: CarStatus) -> CreateCarDto {
    CreateCarDto {
        car_id: String::from(id),
        brand: String::from(brand),
        model: String::from("Corolla"),
        year,
        color: String::from("Red"),
        engine_type: EngineType::Hybrid,
        transmission: String::from("Automatic"),
        price_cents,
        quantity_in_stock: stock,
        status,
    }
}

fn sale(id: &str, quantity: i32, sold_at: i64) -> SaleRecord {
    SaleRecord {
        sale_id: sold_at as u128,
        car_id: CarId::new(String::from(id)).unwrap(),
        quantity,
        price_cents: 100,
        customer_id: None,
        sold_at,
    }
}

#[test]
fn dashboard_groups_by_status_with_grand_total() {
    let mut store = InventoryStore::new();
    store.create_car(dto("C0001", "Toyota", 2024, 2, 1000, CarStatus::Available), 0).unwrap();
    store.create_car(dto("C0002", "Toyota", 2024, 3, 2000, CarStatus::Available), 0).unwrap();
    store.create_car(dto("C0003", "Honda", 2024, 1, 5000, CarStatus::Maintenance), 0).unwrap();
    let d = store.get_dashboard_stats().unwrap();
    assert_eq!(d.status_distribution.len(), 2);
    assert_eq!(d.status_distribution[0].status, CarStatus::Available);
    assert_eq!(d.status_distribution[0].total_units, 2);
    assert_eq!(d.status_distribution[0].inventory_value_cents, 2 * 1000 + 3 * 2000);
    assert_eq!(d.status_distribution[1].status, CarStatus::Maintenance);
    assert_eq!(d.status_distribution[1].total_units, 1);
    assert_eq!(d.status_distribution[1].inventory_value_cents, 5000);
    assert_eq!(d.total_inventory_value_cents, 2000 + 6000 + 5000);
}

#[test]
fn low_stock_report_sorts_by_rising_stock() {
    let mut store = InventoryStore::new();
    store.create_car(dto("C0001", "Toyota", 2024, 5, 100, CarStatus::Available), 0).unwrap();
    store.create_car(dto("C0002", "Toyota", 2024, 1, 100, CarStatus::Available), 0).unwrap();
    store.create_car(dto("C0003", "Toyota", 2024, 2, 100, CarStatus::Available), 0).unwrap();
    let report = store.get_low_stock_report(None);
    assert_eq!(report.len(), 2);
    assert_eq!(report[0].id, "C0002");
    assert_eq!(report[1].id, "C0003");
    let wide = store.get_low_stock_report(Some(10));
    assert_eq!(wide.len(), 3);
    assert_eq!(wide[0].id, "C0002");
    assert_eq!(wide[2].id, "C0001");
}

#[test]
fn depreciation_report_keeps_old_available_cars() {
    let mut store = InventoryStore::new();
    store.create_car(dto("C0001", "Toyota", 2015, 1, 100, CarStatus::Available), 0).unwrap();
    store.create_car(dto("C0002", "Toyota", 2023, 1, 100, CarStatus::Available), 0).unwrap();
    store.create_car(dto("C0003", "Toyota", 2010, 1, 100, CarStatus::Maintenance), 0).unwrap();
    store.create_car(dto("C0004", "Toyota", 2012, 1, 100, CarStatus::Available), 0).unwrap();
    let report = store.get_depreciation_report(2026);
    assert_eq!(report.len(), 2);
    assert_eq!(report[0].id, "C0004");
    assert_eq!(report[0].year, 2012);
    assert_eq!(report[1].id, "C0001");
}

#[test]
fn stock_alerts_classify_severity_and_sort() {
    let mut store = InventoryStore::new();
    store.create_car(dto("C0001", "Toyota", 2024, 2, 100, CarStatus::Available), 0).unwrap();
    store.create_car(dto("C0002", "Toyota", 2024, 5, 100, CarStatus::Available), 0).unwrap();
    // reorder points are not part of the creation request; set them as the
    // schema's defaults would have
    store.cars[0].reorder_point = 4;
    store.cars[1].reorder_point = 4;
    let summary = store.get_stock_alerts(10_000).unwrap();
    assert_eq!(summary.total_alerts, 2);
    assert_eq!(summary.critical_count, 1);
    assert_eq!(summary.warning_count, 1);
    assert_eq!(summary.alerts[0].alert_level, AlertLevel::Critical);
    assert_eq!(summary.alerts[0].current_stock, 2);
    assert_eq!(summary.alerts[1].alert_level, AlertLevel::Warning);
    assert_eq!(summary.alerts[1].available_stock, 5);
    assert_eq!(summary.alerts[0].suggested_action.priority, 1);
    assert_eq!(summary.alerts[0].suggested_action.description, "Stock below reorder point");
}

#[test]
fn sales_velocity_trend_and_rate() {
    let mut store = InventoryStore::new();
    store.create_car(dto("C0001", "Toyota", 2024, 5, 100, CarStatus::Available), 0).unwrap();
    store.create_car(dto("C0002", "Honda", 2024, 5, 100, CarStatus::Available), 0).unwrap();
    let now = 100 * 86_400i64;
    // C0001: two sales in the last week, one in the week before: trending up
    store.sales.push(sale("C0001", 4, now - 86_400));
    store.sales.push(sale("C0001", 4, now - 2 * 86_400));
    store.sales.push(sale("C0001", 1, now - 10 * 86_400));
    let rows = store.get_sales_velocity(30, now).unwrap();
    // the second car has no sales and is left out
    assert_eq!(rows.len(), 1);
    assert_eq!(rows[0].last_30_days_sales, 3);
    assert_eq!(rows[0].last_7_days_sales, 2);
    assert_eq!(rows[0].trend_direction, "UP");
    // average: 9 units over 3 sales spread on 30 days, in thousandths
    assert_eq!(rows[0].avg_daily_sales_milli, 9_000 / (3 * 30));
}

#[test]
fn sales_velocity_trend_down_without_recent_sales() {
    let mut store = InventoryStore::new();
    store.create_car(dto("C0001", "Toyota", 2024, 5, 100, CarStatus::Available), 0).unwrap();
    let now = 100 * 86_400i64;
    store.sales.push(sale("C0001", 2, now - 10 * 86_400));
    let rows = store.get_sales_velocity(30, now).unwrap();
    assert_eq!(rows.len(), 1);
    assert_eq!(rows[0].trend_direction, "DOWN");
    assert_eq!(rows[0].last_7_days_sales, 0);
}

#[test]
fn inventory_metrics_snapshot_counts() {
    let mut store = InventoryStore::new();
    store.create_car(dto("C0001", "Toyota", 2024, 2, 1000, CarStatus::Available), 0).unwrap();
    store.create_car(dto("C0002", "Toyota", 2024, 4, 500, CarStatus::Available), 0).unwrap();
    store
        .create_warehouse(
            String::from("W001"),
            String::from("North"),
            String::from("Oslo"),
            None,
            None,
            10,
            0,
        )
        .unwrap();
    let cid = CarId::new(String::from("C0001")).unwrap();
    store
        .create_reservation_with_id(
            &cid,
            automobile_inventory::models::CreateReservationDto {
                quantity: 1,
                reserved_by: String::from("m"),
                ttl_minutes: 10,
                metadata: None,
            },
            5,
            1_000,
        )
        .unwrap();
    let m = store.get_inventory_metrics().unwrap();
    assert_eq!(m.total_cars, 2);
    assert_eq!(m.total_value_cents, 2 * 1000 + 4 * 500);
    assert_eq!(m.total_warehouses, 1);
    assert_eq!(m.active_reservations, 1);
    assert_eq!(m.reserved_units, 1);
    assert_eq!(m.low_stock_items, 0);
}

#[test]
fn metrics_rollup_upserts_hour_row() {
    let mut store = InventoryStore::new();
    store.create_car(dto("C0001", "Toyota", 2024, 2, 1000, CarStatus::Available), 0).unwrap();
    let now = 7_200i64 + 120;
    store.update_inventory_metrics(now).unwrap();
    assert_eq!(store.metrics_history.len(), 1);
    let row = &store.metrics_history[0];
    assert_eq!(row.metric_hour, 7_200);
    assert_eq!(row.total_cars, 1);
    assert_eq!(row.total_value_cents, 2_000);
    assert_eq!(row.available_stock_value_cents, 2_000);
    // a second run in the same hour overwrites instead of duplicating
    store.create_car(dto("C0002", "Toyota", 2024, 1, 500, CarStatus::Available), 0).unwrap();
    store.update_inventory_metrics(now + 60).unwrap();
    assert_eq!(store.metrics_history.len(), 1);
    assert_eq!(store.metrics_history[0].total_cars, 2);
    assert_eq!(store.metrics_history[0].total_value_cents, 2_500);
}

#[test]
fn low_stock_keeps_stored_order_for_equal_stock() {
    let mut store = InventoryStore::new();
    store.create_car(dto("C0009", "Toyota", 2024, 1, 100, CarStatus::Available), 0).unwrap();
    store.create_car(dto("C0002", "Toyota", 2024, 1, 100, CarStatus::Available), 0).unwrap();
    store.create_car(dto("C0005", "Toyota", 2024, 1, 100, CarStatus::Available), 0).unwrap();
    let report = store.get_low_stock_report(Some(2));
    let ids: Vec<&str> = report.iter().map(|c| c.id.as_str()).collect();
    assert_eq!(ids, vec!["C0009", "C0002", "C0005"]);
}

#[test]
fn stock_alert_rate_is_per_day() {
    let mut store = InventoryStore::new();
    store.create_car(dto("C0001", "Toyota", 2024, 2, 100, CarStatus::Available), 0).unwrap();
    store.cars[0].reorder_point = 4;
    let now = 100 * 86_400i64;
    // six units over two sales in the 30-day window: 0.2 units per day
    store.sales.push(sale("C0001", 4, now - 86_400));
    store.sales.push(sale("C0001", 2, now - 3 * 86_400));
    let summary = store.get_stock_alerts(now).unwrap();
    assert_eq!(summary.alerts.len(), 1);
    assert_eq!(summary.alerts[0].avg_daily_sales_milli, Some(6_000 / (2 * 30)));
    // two units available at 0.1 units per day per sale row pair: 20 days
    assert_eq!(summary.alerts[0].days_until_stockout, Some(2_000 / 100));
}
