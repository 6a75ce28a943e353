use automobile_inventory::circuit_breaker::CircuitBreaker;
use automobile_inventory::circuit_breaker::CircuitBreakerConfig;
use automobile_inventory::circuit_breaker::CircuitError;
use automobile_inventory::circuit_breaker::CircuitState;
use automobile_inventory::errors::AppError;

fn breaker(failure_threshold: u32, success_threshold: u32, open_ms: u64) -> CircuitBreaker {
    CircuitBreaker::with_config(
        String::from("database_operations"),
        CircuitBreakerConfig {
            failure_threshold,
            success_threshold,
            open_duration_ms: open_ms,
            half_open_max_calls: 2,
        },
    )
}

#[test]
fn breaker_trips_after_threshold_and_recovers() {
    let mut b = breaker(3, 2, 10_000);
    // three consecutive failures trip the breaker
    for t in 0..3u64 {
        assert!(b.try_acquire(t).is_ok());
        b.on_failure(t);
    }
    assert_eq!(b.state(), CircuitState::Open);
    // the next call is rejected without touching the dependency
    match b.try_acquire(5_000) {
        Err(CircuitError::Open) => {}
        _ => panic!("open breaker must reject"),
    }
    // after the dwell time one probe goes through
    assert!(b.try_acquire(13_000).is_ok());
    assert_eq!(b.state(), CircuitState::HalfOpen);
    b.on_success(13_001);
    assert!(b.try_acquire(13_002).is_ok());
    b.on_success(13_003);
    assert_eq!(b.state(), CircuitState::Closed);
}

#[test]
fn half_open_limits_parallel_probes() {
    let mut b = breaker(1, 5, 1_000);
    b.on_failure(0);
    assert_eq!(b.state(), CircuitState::Open);
    assert!(b.try_acquire(2_000).is_ok());
    assert!(b.try_acquire(2_001).is_ok());
    match b.try_acquire(2_002) {
        Err(CircuitError::HalfOpenLimit) => {}
        _ => panic!("third probe must hit the half-open limit"),
    }
}

#[test]
fn half_open_failure_reopens_at_threshold() {
    let mut b = breaker(1, 3, 1_000);
    b.on_failure(0);
    assert!(b.try_acquire(1_500).is_ok());
    assert_eq!(b.state(), CircuitState::HalfOpen);
    b.on_failure(1_501);
    assert_eq!(b.state(), CircuitState::Open);
}

#[test]
fn closed_success_clears_failure_streak() {
    let mut b = breaker(3, 2, 1_000);
    b.on_failure(0);
    b.on_failure(1);
    b.on_success(2);
    let m = b.metrics(3);
    assert_eq!(m.failure_count, 0);
    assert_eq!(m.state, CircuitState::Closed);
    // the streak starts over, so two more failures do not trip it
    b.on_failure(4);
    b.on_failure(5);
    assert_eq!(b.state(), CircuitState::Closed);
    b.on_failure(6);
    assert_eq!(b.state(), CircuitState::Open);
}

#[test]
fn breaker_presets_and_default() {
    let d = CircuitBreaker::new(String::from("db"));
    assert_eq!(d.config.failure_threshold, 5);
    assert_eq!(d.config.success_threshold, 3);
    assert_eq!(d.config.open_duration_ms, 30_000);
    assert_eq!(d.config.half_open_max_calls, 3);
    let a = CircuitBreakerConfig::aggressive();
    assert_eq!((a.failure_threshold, a.success_threshold), (3, 2));
    assert_eq!(a.open_duration_ms, 10_000);
    let r = CircuitBreakerConfig::relaxed();
    assert_eq!((r.failure_threshold, r.success_threshold), (10, 5));
    assert_eq!(r.half_open_max_calls, 5);
}

#[test]
fn breaker_errors_map_to_service_unavailable() {
    let e: AppError = AppError::from(CircuitError::<AppError>::Open);
    assert_eq!(e.status_code(), 503);
    let e2: AppError = AppError::from(CircuitError::<AppError>::HalfOpenLimit);
    assert_eq!(e2.error_code(), "SERVICE_UNAVAILABLE");
    let e3: AppError = AppError::from(CircuitError::Underlying(AppError::NotFound));
    assert_eq!(e3.status_code(), 404);
}

#[test]
fn breaker_metrics_report_counters() {
    let mut b = breaker(5, 3, 1_000);
    b.on_failure(100);
    let m = b.metrics(250);
    assert_eq!(m.name, "database_operations");
    assert_eq!(m.failure_count, 1);
    assert_eq!(m.success_count, 0);
    assert_eq!(m.last_failure_time, None);
    assert_eq!(m.time_in_current_state_ms, 250);
}
