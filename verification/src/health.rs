//! Tiered health classification: the outcome of acquiring a pooled
//! connection and of the probe query decide between healthy, degraded and
//! unhealthy, and that decision fixes the HTTP status and body fields.

use vstd::prelude::*;

verus! {

/// One component's health.
pub enum HealthStatus {
    Healthy,
    Degraded(String),
    Unhealthy(String),
}

/// The system's health: the database tier and the overall verdict.
pub struct SystemHealth {
    pub database: HealthStatus,
    pub overall: HealthStatus,
    pub response_time_ms: u64,
}

/// The body of the health endpoint.
pub struct HealthResponse {
    pub status: String,
    pub database: String,
    pub database_details: Option<String>,
    pub response_time_ms: u64,
    pub uptime_seconds: u64,
    pub version: String,
    pub timestamp: String,
}

/// How acquiring a pooled connection went.
pub enum AcquireOutcome {
    Acquired,
    Failed(String),
    TimedOut,
}

/// How the probe query went, once a connection was acquired.
pub enum QueryOutcome {
    Succeeded,
    Failed(String),
    TimedOut,
}

/// Classifies the database tier: an acquire timeout means the pool is
/// exhausted (degraded); an acquire failure is unhealthy; a query timeout
/// means the database is loaded (degraded); a query failure is unhealthy;
/// otherwise healthy.
pub fn classify_db_health(acquire: AcquireOutcome, query: Option<QueryOutcome>) -> (r:
    HealthStatus)
    requires
        (acquire is Acquired) <==> (query is Some),
    ensures
        match acquire {
            AcquireOutcome::TimedOut => r matches HealthStatus::Degraded(m) && m@
                == "Connection pool exhausted, acquire timeout"@,
            AcquireOutcome::Failed(e) => r matches HealthStatus::Unhealthy(m) && m@
                == "Failed to acquire connection: "@ + e@,
            AcquireOutcome::Acquired => match query.unwrap() {
                QueryOutcome::Succeeded => r == HealthStatus::Healthy,
                QueryOutcome::TimedOut => r matches HealthStatus::Degraded(m) && m@
                    == "Query timeout - database under load"@,
                QueryOutcome::Failed(e) => r matches HealthStatus::Unhealthy(m) && m@
                    == "Query failed: "@ + e@,
            },
        },
{
    match acquire {
        AcquireOutcome::TimedOut => HealthStatus::Degraded(
            String::from_str("Connection pool exhausted, acquire timeout"),
        ),
        AcquireOutcome::Failed(e) => {
            let mut m = String::from_str("Failed to acquire connection: ");
            m.append(e.as_str());
            HealthStatus::Unhealthy(m)
        },
        AcquireOutcome::Acquired => match query {
            Some(QueryOutcome::Succeeded) => HealthStatus::Healthy,
            Some(QueryOutcome::TimedOut) => HealthStatus::Degraded(
                String::from_str("Query timeout - database under load"),
            ),
            Some(QueryOutcome::Failed(e)) => {
                let mut m = String::from_str("Query failed: ");
                m.append(e.as_str());
                HealthStatus::Unhealthy(m)
            },
            None => HealthStatus::Healthy,
        },
    }
}

/// Folds the database tier into the overall verdict.
pub fn check_full(db_status: HealthStatus, response_time_ms: u64) -> (r: SystemHealth)
    ensures
        r.response_time_ms == response_time_ms,
        r.database == db_status,
        match db_status {
            HealthStatus::Healthy => r.overall == HealthStatus::Healthy,
            HealthStatus::Degraded(_) => r.overall matches HealthStatus::Degraded(m) && m@
                == "Database experiencing issues"@,
            HealthStatus::Unhealthy(_) => r.overall matches HealthStatus::Unhealthy(m) && m@
                == "Database unavailable"@,
        },
{
    let overall = match &db_status {
        HealthStatus::Healthy => HealthStatus::Healthy,
        HealthStatus::Degraded(_) => HealthStatus::Degraded(
            String::from_str("Database experiencing issues"),
        ),
        HealthStatus::Unhealthy(_) => HealthStatus::Unhealthy(
            String::from_str("Database unavailable"),
        ),
    };
    SystemHealth { database: db_status, overall, response_time_ms }
}

/// The HTTP status the health endpoint answers with: healthy and degraded
/// are 200, unhealthy is 503.
pub fn health_http_status(db: &HealthStatus) -> (r: u16)
    ensures
        r == (match db {
            HealthStatus::Unhealthy(_) => 503u16,
            _ => 200u16,
        }),
{
    match db {
        HealthStatus::Unhealthy(_) => 503,
        _ => 200,
    }
}

/// The short database label of the health body.
pub fn health_db_label(db: &HealthStatus) -> (r: &'static str)
    ensures
        r@ == (match db {
            HealthStatus::Healthy => "Up"@,
            HealthStatus::Degraded(_) => "Degraded"@,
            HealthStatus::Unhealthy(_) => "Down"@,
        }),
{
    match db {
        HealthStatus::Healthy => "Up",
        HealthStatus::Degraded(_) => "Degraded",
        HealthStatus::Unhealthy(_) => "Down",
    }
}

/// The overall status label of the health body.
pub fn health_status_label(db: &HealthStatus) -> (r: &'static str)
    ensures
        r@ == (match db {
            HealthStatus::Unhealthy(_) => "ERROR"@,
            _ => "OK"@,
        }),
{
    match db {
        HealthStatus::Unhealthy(_) => "ERROR",
        _ => "OK",
    }
}

/// The detail text of the health body: the reason when not healthy.
pub fn health_details(db: &HealthStatus) -> (r: Option<String>)
    ensures
        match db {
            HealthStatus::Healthy => r is None,
            HealthStatus::Degraded(m) => r matches Some(d) && d@ == m@,
            HealthStatus::Unhealthy(m) => r matches Some(d) && d@ == m@,
        },
{
    match db {
        HealthStatus::Healthy => None,
        HealthStatus::Degraded(m) => Some(m.clone()),
        HealthStatus::Unhealthy(m) => Some(m.clone()),
    }
}

} // verus!
