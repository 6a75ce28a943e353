use automobile_inventory::cache::QueryCache;
use automobile_inventory::cache::TtlCache;
use automobile_inventory::config::CorsConfig;
use automobile_inventory::config::DatabaseConfig;
use automobile_inventory::config::EnvironmentType;
use automobile_inventory::config::ServerConfig;
use automobile_inventory::config::parse_environment;
use automobile_inventory::config::validate_log_level;
use automobile_inventory::errors::AppError;
use automobile_inventory::errors::DbErrorKind;
use automobile_inventory::errors::ErrorExposure;
use automobile_inventory::errors::ErrorId;
use automobile_inventory::errors::get_error_exposure;
use automobile_inventory::errors::set_error_exposure;
use automobile_inventory::health::AcquireOutcome;
use automobile_inventory::health::HealthStatus;
use automobile_inventory::health::QueryOutcome;
use automobile_inventory::models::price_string;
use automobile_inventory::numfmt::u64_to_string;
use automobile_inventory::pagination::PaginatedResponse;
use automobile_inventory::pagination::PaginationParams;
use automobile_inventory::pipeline::DrainStep;
use automobile_inventory::pipeline::InFlightCounter;
use automobile_inventory::pipeline::RequestContext;
use automobile_inventory::pipeline::StatusClass;
use automobile_inventory::pipeline::drain_step;
use automobile_inventory::pipeline::render_error;
use automobile_inventory::pipeline::status_class;
use automobile_inventory::uuids::format_uuid;

#[test]
fn decimal_and_uuid_rendering() {
    assert_eq!(u64_to_string(0), "0");
    assert_eq!(u64_to_string(9), "9");
    assert_eq!(u64_to_string(1234567890), "1234567890");
    assert_eq!(price_string(2500050), "25000.50");
    assert_eq!(price_string(7), "0.07");
    assert_eq!(
        format_uuid(0x12345678_9abc_def0_1122_334455667788u128),
        "12345678-9abc-def0-1122-334455667788"
    );
    assert_eq!(format_uuid(0), "00000000-0000-0000-0000-000000000000");
}

#[test]
fn pagination_normalizes_and_counts_pages() {
    let p = PaginationParams { page: Some(0), page_size: Some(500) };
    let (limit, offset, page, size) = p.normalize();
    assert_eq!((limit, offset, page, size), (100, 0, 1, 100));
    let q = PaginationParams { page: None, page_size: None };
    assert_eq!(q.normalize(), (10, 0, 1, 10));
    let r = PaginationParams { page: Some(3), page_size: Some(20) };
    assert_eq!(r.normalize(), (20, 40, 3, 20));
    let resp: PaginatedResponse<u32> = PaginatedResponse::new(vec![1, 2, 3], 41, 3, 20);
    assert_eq!(resp.meta.total_pages, 3);
    let none: PaginatedResponse<u32> = PaginatedResponse::new(Vec::new(), 0, 1, 10);
    assert_eq!(none.meta.total_pages, 1);
}

#[test]
fn error_codes_statuses_and_messages() {
    assert_eq!(AppError::NotFound.error_code(), "RESOURCE_NOT_FOUND");
    assert_eq!(AppError::NotFound.status_code(), 404);
    assert_eq!(AppError::ReservationExpired.status_code(), 410);
    assert_eq!(AppError::ConcurrentModification.status_code(), 409);
    assert_eq!(AppError::NotImplemented.status_code(), 501);
    let rate = AppError::RateLimited { retry_after: 30 };
    assert_eq!(rate.status_code(), 429);
    assert_eq!(
        rate.safe_message(),
        "Rate limit exceeded. Please retry after 30 seconds"
    );
    assert_eq!(rate.display_message(), "Rate limit exceeded. Retry after: 30s");
    let short = AppError::InsufficientStock { requested: 5, available: 3 };
    assert_eq!(short.error_code(), "INSUFFICIENT_STOCK");
    assert_eq!(short.display_message(), "Insufficient stock: requested 5, available 3");
    assert_eq!(
        AppError::DatabaseError(String::from("boom")).safe_message(),
        "An internal error occurred. Please contact support if the problem persists"
    );
}

#[test]
fn error_context_chain_formats_root_first() {
    let e = AppError::NotFound
        .with_context(String::from("loading car"))
        .with_context(String::from("handling request"));
    assert_eq!(e.status_code(), 404);
    assert_eq!(e.error_code(), "RESOURCE_NOT_FOUND");
    assert_eq!(
        e.format_error_chain(),
        "[Root: Resource not found] -> [Context: loading car] -> [Context: handling request]"
    );
}

#[test]
fn db_error_translation() {
    let dup = AppError::from_db(
        DbErrorKind::Constraint { code: String::from("23505"), message: String::from("dup") },
        "Car",
    );
    match dup {
        AppError::AlreadyExists(m) => assert_eq!(m, "Car already exists"),
        _ => panic!("expected conflict"),
    }
    let fk = AppError::from_db(
        DbErrorKind::Constraint { code: String::from("23503"), message: String::from("fk") },
        "Car",
    );
    match fk {
        AppError::InvalidJson(m) => assert_eq!(m, "Foreign key violation in Car"),
        _ => panic!("expected invalid input"),
    }
    let check = AppError::from_db(
        DbErrorKind::Constraint { code: String::from("23514"), message: String::from("chk") },
        "Car",
    );
    assert!(matches!(check, AppError::BusinessRuleViolation(_)));
    assert!(matches!(
        AppError::from_db(DbErrorKind::RowNotFound, "Car"),
        AppError::NotFound
    ));
}

#[test]
fn exposure_switch_codec() {
    assert_eq!(set_error_exposure(ErrorExposure::Debug), 0);
    assert_eq!(set_error_exposure(ErrorExposure::Safe), 1);
    assert_eq!(get_error_exposure(0), ErrorExposure::Debug);
    assert_eq!(get_error_exposure(1), ErrorExposure::Safe);
    assert_eq!(get_error_exposure(9), ErrorExposure::Safe);
}

#[test]
fn error_envelope_rendering() {
    let e = AppError::RateLimited { retry_after: 7 };
    let env = render_error(
        &e,
        ErrorExposure::Safe,
        ErrorId(5),
        Some(String::from("req-1")),
        String::from("2026-01-01T00:00:00Z"),
    );
    assert_eq!(env.code, "RATE_LIMITED");
    assert_eq!(env.status, 429);
    assert_eq!(env.retry_after, Some(7));
    assert_eq!(env.error_id, "00000000-0000-0000-0000-000000000005");
    assert_eq!(env.request_id.as_deref(), Some("req-1"));
    assert_eq!(env.documentation.as_deref(), Some("https://docs.yourapi.com/errors/rate-limiting"));
    let debug_env = render_error(
        &AppError::NotFound,
        ErrorExposure::Debug,
        ErrorId(5),
        None,
        String::from("t"),
    );
    assert_eq!(debug_env.message, "Resource not found");
}

#[test]
fn server_and_cors_config_rules() {
    let server = ServerConfig {
        port: 8080,
        host: String::from("0.0.0.0"),
        request_timeout_seconds: 30,
        shutdown_timeout_seconds: 10,
    };
    assert_eq!(server.bind_address(), "0.0.0.0:8080");
    assert_eq!(server.request_timeout(), 30_000);
    assert_eq!(server.shutdown_timeout(), 10_000);
    let cors = CorsConfig {
        allowed_origins: String::from("  *  "),
        allow_credentials: true,
        max_age_seconds: 3_600,
        allowed_methods: Vec::new(),
    };
    assert!(cors.is_wildcard());
    assert_eq!(cors.max_age(), 3_600_000);
    let listed = CorsConfig {
        allowed_origins: String::from("https://a.example, http://b.example , ,"),
        allow_credentials: false,
        max_age_seconds: 60,
        allowed_methods: Vec::new(),
    };
    assert!(!listed.is_wildcard());
    let origins = listed.validate_production_origins().unwrap();
    assert_eq!(origins, vec!["https://a.example", "http://b.example"]);
    let bad = CorsConfig {
        allowed_origins: String::from("ftp://a.example"),
        allow_credentials: false,
        max_age_seconds: 60,
        allowed_methods: Vec::new(),
    };
    match bad.validate_production_origins() {
        Err(AppError::ConfigError(m)) => {
            assert_eq!(m, "Origin must start with http:// or https://: ftp://a.example");
        }
        _ => panic!("expected config error"),
    }
}

#[test]
fn environment_and_log_level_parsing() {
    assert_eq!(parse_environment("prod"), EnvironmentType::Production);
    assert_eq!(parse_environment("production"), EnvironmentType::Production);
    assert_eq!(parse_environment("stg"), EnvironmentType::Staging);
    assert_eq!(parse_environment("testing"), EnvironmentType::Test);
    assert_eq!(parse_environment("whatever"), EnvironmentType::Development);
    assert!(EnvironmentType::Production.is_production());
    assert_eq!(EnvironmentType::Staging.as_str(), "staging");
    assert!(validate_log_level("info"));
    assert!(validate_log_level("ERROR"));
    assert!(!validate_log_level("verbose"));
    let db = DatabaseConfig {
        url: String::from(""),
        max_connections: 500,
        min_connections: 2,
        acquire_timeout_seconds: 5,
        max_lifetime_seconds: 1800,
        idle_timeout_seconds: 600,
        health_check_timeout_seconds: 3,
        health_check_acquire_timeout_ms: 500,
    };
    let issues = db.validate();
    assert_eq!(issues.entries.len(), 2);
    assert_eq!(issues.entries[0].field, "url");
    assert_eq!(issues.entries[1].message, "range");
}

#[test]
fn health_classification_tiers() {
    match automobile_inventory::health::classify_db_health(AcquireOutcome::TimedOut, None) {
        HealthStatus::Degraded(m) => assert_eq!(m, "Connection pool exhausted, acquire timeout"),
        _ => panic!("expected degraded"),
    }
    match automobile_inventory::health::classify_db_health(
        AcquireOutcome::Failed(String::from("refused")),
        None,
    ) {
        HealthStatus::Unhealthy(m) => assert_eq!(m, "Failed to acquire connection: refused"),
        _ => panic!("expected unhealthy"),
    }
    let healthy = automobile_inventory::health::classify_db_health(
        AcquireOutcome::Acquired,
        Some(QueryOutcome::Succeeded),
    );
    assert!(matches!(healthy, HealthStatus::Healthy));
    assert_eq!(automobile_inventory::health::health_http_status(&healthy), 200);
    let loaded = automobile_inventory::health::classify_db_health(
        AcquireOutcome::Acquired,
        Some(QueryOutcome::TimedOut),
    );
    assert_eq!(automobile_inventory::health::health_http_status(&loaded), 200);
    assert_eq!(automobile_inventory::health::health_db_label(&loaded), "Degraded");
    let broken = automobile_inventory::health::classify_db_health(
        AcquireOutcome::Acquired,
        Some(QueryOutcome::Failed(String::from("boom"))),
    );
    assert_eq!(automobile_inventory::health::health_http_status(&broken), 503);
    assert_eq!(automobile_inventory::health::health_status_label(&broken), "ERROR");
    let full = automobile_inventory::health::check_full(broken, 12);
    match full.overall {
        HealthStatus::Unhealthy(m) => assert_eq!(m, "Database unavailable"),
        _ => panic!("expected unhealthy overall"),
    }
}

#[test]
fn pipeline_context_counter_and_drain() {
    let ctx = RequestContext::new(
        Some(String::from("req-9")),
        Some(String::from("tenant-1")),
        None,
        1_000,
        String::from("/api/v1/cars"),
        String::from("GET"),
    );
    assert_eq!(ctx.request_id, "req-9");
    assert_eq!(ctx.elapsed_ms(1_250), 250);
    let minted = RequestContext::new(None, None, None, 0, String::from("/"), String::from("GET"));
    assert_eq!(minted.request_id.len(), 36);
    let mut counter = InFlightCounter::new();
    counter.increment();
    counter.increment();
    counter.decrement();
    assert_eq!(counter.active(), 1);
    counter.decrement();
    counter.decrement();
    assert_eq!(counter.active(), 0);
    assert_eq!(drain_step(0, 0, 1_000), DrainStep::Done);
    assert_eq!(drain_step(3, 500, 1_000), DrainStep::Wait);
    assert_eq!(drain_step(3, 1_500, 1_000), DrainStep::TimedOut);
    assert_eq!(status_class(200), StatusClass::Success);
    assert_eq!(status_class(404), StatusClass::ClientError);
    assert_eq!(status_class(503), StatusClass::ServerError);
}

#[test]
fn ttl_cache_serves_within_ttl_and_expires() {
    let mut cache: TtlCache<u32> = TtlCache::new(2, 1_000, None);
    cache.store(String::from("a"), 1, 0);
    assert!(cache.lookup("a", 500).is_some());
    assert!(cache.lookup("a", 1_000).is_none());
    cache.store(String::from("a"), 2, 2_000);
    let i = cache.lookup("a", 2_100).unwrap();
    assert_eq!(cache.entries[i].value, 2);
}

#[test]
fn ttl_cache_evicts_least_recently_used_at_capacity() {
    let mut cache: TtlCache<u32> = TtlCache::new(2, 10_000, None);
    cache.store(String::from("a"), 1, 0);
    cache.store(String::from("b"), 2, 1);
    assert!(cache.lookup("a", 2).is_some());
    cache.store(String::from("c"), 3, 3);
    assert_eq!(cache.len(), 2);
    assert!(cache.lookup("b", 4).is_none());
    assert!(cache.lookup("a", 4).is_some());
    assert!(cache.lookup("c", 4).is_some());
}

#[test]
fn query_cache_invalidation_paths() {
    let mut q = QueryCache::new();
    q.store_car_by_id(
        "C0001",
        automobile_inventory::models::CarResponse {
            id: String::from("C0001"),
            brand: String::from("Toyota"),
            model: String::from("Corolla"),
            year: 2024,
            price: String::from("1.00"),
            is_available: true,
            created_at: 0,
            updated_at: 0,
            deleted_at: None,
        },
        100,
    );
    let hit = q.get_car_by_id_cached("C0001", 200).unwrap();
    assert_eq!(hit.brand, "Toyota");
    q.invalidate_car("C0001");
    assert!(q.get_car_by_id_cached("C0001", 300).is_none());
    let m = q.metrics();
    assert_eq!(m.car_by_id_size, 0);
    assert_eq!(m.dashboard_stats_size, 0);
    assert_eq!(QueryCache::low_stock_key(3), "threshold_3");
}

#[test]
fn wildcard_origin_shapes() {
    let make = |origins: &str| CorsConfig {
        allowed_origins: String::from(origins),
        allow_credentials: false,
        max_age_seconds: 60,
        allowed_methods: Vec::new(),
    };
    assert!(make("*").is_wildcard());
    assert!(make("https://a.example,*,https://b.example").is_wildcard());
    assert!(make("*/anything").is_wildcard());
    assert!(make("https://a.example/*").is_wildcard());
    assert!(!make("https://a.example").is_wildcard());
    match make("*").validate_production_origins() {
        Err(AppError::ConfigError(m)) => assert_eq!(m, "Wildcard not allowed"),
        _ => panic!("wildcard must be refused"),
    }
    match make("  , ,").validate_production_origins() {
        Err(AppError::ConfigError(m)) => assert_eq!(m, "No valid origins found"),
        _ => panic!("empty list must be refused"),
    }
}
