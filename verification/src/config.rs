//! Configuration: the typed settings the application runs under, their
//! validation rules, the CORS origin list parser, and the defaults applied
//! when the environment names no value. Reading files and environment
//! variables happens outside; everything here is checked logic over the
//! values handed in.

use crate::errors::AppError;
use crate::errors::ValidationIssues;
use crate::numfmt::decimal_chars;
use crate::store::filter_seq;
use crate::store::lemma_filter_seq_take_all;
use crate::store::lemma_filter_seq_take_step;
use crate::textutil::seq_contains;
use crate::textutil::seq_ends_with;
use crate::textutil::seq_starts_with;
use crate::textutil::split_commas;
use crate::textutil::str_contains;
use crate::textutil::str_ends_with;
use crate::textutil::str_eq;
use crate::textutil::str_starts_with;
use crate::textutil::str_trim;
use crate::textutil::trim_spec;
use vstd::prelude::*;

verus! {

/// The application's own name and version.
pub struct AppMetadata {
    pub name: String,
    pub version: String,
}

/// Where and how the server listens.
pub struct ServerConfig {
    pub port: u16,
    pub host: String,
    pub request_timeout_seconds: u64,
    pub shutdown_timeout_seconds: u64,
}

impl ServerConfig {
    /// The `host:port` address to bind.
    pub fn bind_address(&self) -> (r: String)
        ensures
            r@ == self.host@ + ":"@ + decimal_chars(self.port as int),
    {
        let mut s = self.host.clone();
        s.append(":");
        let p = crate::numfmt::u64_to_string(self.port as u64);
        s.append(p.as_str());
        s
    }

    /// The per-request timeout in milliseconds.
    pub fn request_timeout(&self) -> (r: u64)
        requires
            self.request_timeout_seconds <= 300,
        ensures
            r == self.request_timeout_seconds * 1000,
    {
        self.request_timeout_seconds * 1000
    }

    /// The shutdown drain timeout in milliseconds.
    pub fn shutdown_timeout(&self) -> (r: u64)
        requires
            self.shutdown_timeout_seconds <= 60,
        ensures
            r == self.shutdown_timeout_seconds * 1000,
    {
        self.shutdown_timeout_seconds * 1000
    }
}

/// The accepted server settings: a non-system port and bounded timeouts.
pub open spec fn server_config_ok(c: ServerConfig) -> bool {
    &&& 1024 <= c.port <= 65535
    &&& c.host@.len() >= 1
    &&& 1 <= c.request_timeout_seconds <= 300
    &&& 1 <= c.shutdown_timeout_seconds <= 60
}

/// Checks the server settings.
pub fn validate_server_config(c: &ServerConfig) -> (r: bool)
    ensures
        r == server_config_ok(*c),
{
    1024 <= c.port && c.host.as_str().unicode_len() >= 1 && 1 <= c.request_timeout_seconds
        && c.request_timeout_seconds <= 300 && 1 <= c.shutdown_timeout_seconds
        && c.shutdown_timeout_seconds <= 60
}

/// How the database pool is sized and timed.
pub struct DatabaseConfig {
    pub url: String,
    pub max_connections: u32,
    pub min_connections: u32,
    pub acquire_timeout_seconds: u64,
    pub max_lifetime_seconds: u64,
    pub idle_timeout_seconds: u64,
    pub health_check_timeout_seconds: u64,
    pub health_check_acquire_timeout_ms: u64,
}

/// The checks applied to the database settings, in order.
pub open spec fn database_issues(c: DatabaseConfig) -> Seq<(Seq<char>, Seq<char>)> {
    (if c.url@.len() == 0 {
        seq![("url"@, "database_url_empty"@)]
    } else {
        Seq::empty()
    }) + (if c.max_connections < 1 || c.max_connections > 100 {
        seq![("max_connections"@, "range"@)]
    } else {
        Seq::empty()
    })
}

impl DatabaseConfig {
    /// Checks the connection settings: a non-empty URL and a pool size
    /// between 1 and 100.
    pub fn validate(&self) -> (r: ValidationIssues)
        ensures
            crate::models::issues_match(r, database_issues(*self)),
    {
        let mut r = ValidationIssues::new();
        if self.url.as_str().unicode_len() == 0 {
            r.add("url", "database_url_empty");
        }
        if self.max_connections < 1 || self.max_connections > 100 {
            r.add("max_connections", "range");
        }
        r
    }
}

/// Cross-origin settings.
pub struct CorsConfig {
    pub allowed_origins: String,
    pub allow_credentials: bool,
    pub max_age_seconds: u64,
    pub allowed_methods: Vec<String>,
}

/// Whether a trimmed origin list amounts to a wildcard.
pub open spec fn wildcard_origins(s: Seq<char>) -> bool {
    let t = trim_spec(s);
    t == "*"@ || seq_contains(t, ",*,"@) || seq_starts_with(t, "*/"@) || seq_ends_with(
        t,
        "/*"@,
    )
}

/// The parsed origin list: comma-separated entries, trimmed, empties
/// dropped.
pub open spec fn origins_of(s: Seq<char>) -> Seq<Seq<char>> {
    filter_seq(split_commas(s).map_values(|t: Seq<char>| trim_spec(t)), |t: Seq<char>| t.len() > 0)
}

impl CorsConfig {
    /// The preflight cache age in milliseconds.
    pub fn max_age(&self) -> (r: u64)
        requires
            self.max_age_seconds <= 86400,
        ensures
            r == self.max_age_seconds * 1000,
    {
        self.max_age_seconds * 1000
    }

    /// Whether the origin list amounts to a wildcard.
    pub fn is_wildcard(&self) -> (r: bool)
        ensures
            r == wildcard_origins(self.allowed_origins@),
    {
        let t = str_trim(self.allowed_origins.as_str());
        str_eq(t, "*") || str_contains(t, ",*,") || str_starts_with(t, "*/") || str_ends_with(
            t,
            "/*",
        )
    }

    /// Parses the origin list under production rules: no wildcard, at
    /// least one origin, and every origin an explicit `http://` or
    /// `https://` URL. On success the cleaned list is returned.
    #[verifier::loop_isolation(false)]
    pub fn validate_production_origins(&self) -> (r: Result<Vec<String>, AppError>)
        ensures
            ({
                let parsed = origins_of(self.allowed_origins@);
                match r {
                    Ok(v) => {
                        &&& !wildcard_origins(self.allowed_origins@)
                        &&& parsed.len() > 0
                        &&& v.deep_view() == parsed
                        &&& forall|j: int|
                            0 <= j < parsed.len() ==> seq_starts_with(
                                #[trigger] parsed[j],
                                "http://"@,
                            ) || seq_starts_with(parsed[j], "https://"@)
                    },
                    Err(e) => {
                        &&& e matches AppError::ConfigError(_)
                        &&& if wildcard_origins(self.allowed_origins@) {
                            e matches AppError::ConfigError(m) && m@ == "Wildcard not allowed"@
                        } else if parsed.len() == 0 {
                            e matches AppError::ConfigError(m) && m@
                                == "No valid origins found"@
                        } else {
                            exists|j: int|
                                0 <= j < parsed.len() && !seq_starts_with(
                                    #[trigger] parsed[j],
                                    "http://"@,
                                ) && !seq_starts_with(parsed[j], "https://"@)
                        }
                    },
                }
            }),
    {
        if self.is_wildcard() {
            return Err(AppError::ConfigError(String::from_str("Wildcard not allowed")));
        }
        let parts = crate::textutil::split_commas_exec(self.allowed_origins.as_str());
        let ghost mapped = split_commas(self.allowed_origins@).map_values(
            |t: Seq<char>| trim_spec(t),
        );
        let ghost keep = |t: Seq<char>| t.len() > 0;
        let n = parts.len();
        proof {
            assert(parts.deep_view().len() == n as int);
            assert(mapped.len() == n as int);
        }
        let mut origins: Vec<String> = Vec::new();
        let mut i: usize = 0;
        while i < n
            invariant
                i <= n,
                n == parts@.len(),
                mapped.len() == n,
                mapped == split_commas(self.allowed_origins@).map_values(
                    |t: Seq<char>| trim_spec(t),
                ),
                parts.deep_view() == split_commas(self.allowed_origins@),
                origins.deep_view() == filter_seq(mapped.take(i as int), keep),
            decreases n - i,
        {
            proof {
                lemma_filter_seq_take_step(mapped, keep, i as int);
                assert(mapped[i as int] == trim_spec(parts.deep_view()[i as int]));
                assert(parts.deep_view()[i as int] == parts@[i as int]@);
            }
            let t = str_trim(parts[i].as_str());
            if t.unicode_len() > 0 {
                origins.push(String::from_str(t));
                proof {
                    assert(origins.deep_view() =~= filter_seq(mapped.take(i as int), keep).push(
                        mapped[i as int],
                    ));
                }
            }
            i += 1;
        }
        proof {
            lemma_filter_seq_take_all(mapped, keep);
        }
        if origins.len() == 0 {
            return Err(AppError::ConfigError(String::from_str("No valid origins found")));
        }
        let m = origins.len();
        let mut k: usize = 0;
        while k < m
            invariant
                k <= m,
                m == origins@.len(),
                origins.deep_view() == origins_of(self.allowed_origins@),
                forall|j: int|
                    0 <= j < k ==> seq_starts_with(
                        #[trigger] origins.deep_view()[j],
                        "http://"@,
                    ) || seq_starts_with(origins.deep_view()[j], "https://"@),
            decreases m - k,
        {
            let ok = str_starts_with(origins[k].as_str(), "http://") || str_starts_with(
                origins[k].as_str(),
                "https://",
            );
            if !ok {
                let mut msg = String::from_str("Origin must start with http:// or https://: ");
                msg.append(origins[k].as_str());
                proof {
                    assert(origins.deep_view()[k as int] == origins@[k as int]@);
                }
                return Err(AppError::ConfigError(msg));
            }
            k += 1;
        }
        Ok(origins)
    }
}

/// Logging, metrics and tracing settings.
pub struct ObservabilityConfig {
    pub log_level: String,
    pub enable_metrics: bool,
    pub enable_tracing: bool,
    pub otel_endpoint: String,
}

/// The accepted log levels, in either case.
pub open spec fn log_level_ok(s: Seq<char>) -> bool {
    ||| s == "trace"@
    ||| s == "debug"@
    ||| s == "info"@
    ||| s == "warn"@
    ||| s == "error"@
    ||| s == "TRACE"@
    ||| s == "DEBUG"@
    ||| s == "INFO"@
    ||| s == "WARN"@
    ||| s == "ERROR"@
}

/// Checks a log level name.
pub fn validate_log_level(level: &str) -> (r: bool)
    ensures
        r == log_level_ok(level@),
{
    str_eq(level, "trace") || str_eq(level, "debug") || str_eq(level, "info") || str_eq(
        level,
        "warn",
    ) || str_eq(level, "error") || str_eq(level, "TRACE") || str_eq(level, "DEBUG") || str_eq(
        level,
        "INFO",
    ) || str_eq(level, "WARN") || str_eq(level, "ERROR")
}

/// Optional feature switches.
pub struct FeaturesConfig {
    pub enable_caching: bool,
    pub enable_rate_limiting: bool,
}

/// Which environment the process runs in.
#[derive(Clone, Copy, Debug, PartialEq, Eq, Structural)]
pub enum EnvironmentType {
    Development,
    Staging,
    Production,
    Test,
}

/// The text name of an environment.
pub open spec fn environment_chars(e: EnvironmentType) -> Seq<char> {
    match e {
        EnvironmentType::Development => "development"@,
        EnvironmentType::Staging => "staging"@,
        EnvironmentType::Production => "production"@,
        EnvironmentType::Test => "test"@,
    }
}

impl EnvironmentType {
    /// The environment's name.
    pub fn as_str(&self) -> (r: &'static str)
        ensures
            r@ == environment_chars(*self),
    {
        match self {
            EnvironmentType::Development => "development",
            EnvironmentType::Staging => "staging",
            EnvironmentType::Production => "production",
            EnvironmentType::Test => "test",
        }
    }

    /// Whether this is the production environment.
    pub fn is_production(&self) -> (r: bool)
        ensures
            r == (*self == EnvironmentType::Production),
    {
        match self {
            EnvironmentType::Production => true,
            _ => false,
        }
    }
}

/// The environment a lower-cased selector string names; anything unknown
/// is development.
pub open spec fn environment_of(s: Seq<char>) -> EnvironmentType {
    if s == "production"@ || s == "prod"@ {
        EnvironmentType::Production
    } else if s == "staging"@ || s == "stg"@ {
        EnvironmentType::Staging
    } else if s == "test"@ || s == "testing"@ {
        EnvironmentType::Test
    } else {
        EnvironmentType::Development
    }
}

/// Parses an environment selector.
pub fn parse_environment(s: &str) -> (r: EnvironmentType)
    ensures
        r == environment_of(s@),
{
    if str_eq(s, "production") || str_eq(s, "prod") {
        EnvironmentType::Production
    } else if str_eq(s, "staging") || str_eq(s, "stg") {
        EnvironmentType::Staging
    } else if str_eq(s, "test") || str_eq(s, "testing") {
        EnvironmentType::Test
    } else {
        EnvironmentType::Development
    }
}

/// The environment assumed when none is named.
pub fn default_environment() -> (r: EnvironmentType)
    ensures
        r == EnvironmentType::Development,
{
    EnvironmentType::Development
}

/// The whole configuration.
pub struct AppConfig {
    pub app: AppMetadata,
    pub server: ServerConfig,
    pub database: DatabaseConfig,
    pub cors: CorsConfig,
    pub observability: ObservabilityConfig,
    pub features: FeaturesConfig,
    pub environment: EnvironmentType,
}

/// Checks the cross-field rules: production refuses a CORS wildcard and an
/// empty origin list, and the pool's maximum must exceed its minimum.
pub fn validate_business_rules(config: &AppConfig) -> (r: Result<(), AppError>)
    ensures
        match r {
            Ok(()) => {
                &&& (config.environment == EnvironmentType::Production ==> !wildcard_origins(
                    config.cors.allowed_origins@,
                ) && trim_spec(config.cors.allowed_origins@).len() > 0)
                &&& config.database.max_connections > config.database.min_connections
            },
            Err(e) => {
                &&& e matches AppError::ConfigError(_)
                &&& ((config.environment == EnvironmentType::Production && (wildcard_origins(
                    config.cors.allowed_origins@,
                ) || trim_spec(config.cors.allowed_origins@).len() == 0))
                    || config.database.max_connections <= config.database.min_connections)
            },
        },
{
    if config.environment.is_production() {
        if config.cors.is_wildcard() {
            return Err(
                AppError::ConfigError(
                    String::from_str(
                        "CORS wildcard (*) is strictly forbidden in production. Configure specific allowed origins in APP__CORS__ALLOWED_ORIGINS or config/production.yaml",
                    ),
                ),
            );
        }
        let trimmed = str_trim(config.cors.allowed_origins.as_str());
        if trimmed.unicode_len() == 0 {
            return Err(
                AppError::ConfigError(
                    String::from_str("CORS allowed_origins cannot be empty in production"),
                ),
            );
        }
    }
    if config.database.max_connections <= config.database.min_connections {
        return Err(
            AppError::ConfigError(
                String::from_str(
                    "database.max_connections must be greater than database.min_connections",
                ),
            ),
        );
    }
    Ok(())
}

/// Default switch values.
pub fn default_true() -> (r: bool)
    ensures
        r == true,
{
    true
}

pub fn default_false() -> (r: bool)
    ensures
        r == false,
{
    false
}

pub fn default_max_connections() -> (r: u32)
    ensures
        r == 10,
{
    10
}

pub fn default_min_connections() -> (r: u32)
    ensures
        r == 2,
{
    2
}

pub fn default_max_lifetime() -> (r: u64)
    ensures
        r == 1800,
{
    1800
}

pub fn default_acquire_timeout_seconds() -> (r: u64)
    ensures
        r == 5,
{
    5
}

pub fn default_idle_timeout() -> (r: u64)
    ensures
        r == 600,
{
    600
}

pub fn default_max_age() -> (r: u64)
    ensures
        r == 3600,
{
    3600
}

pub fn default_health_check_timeout_seconds() -> (r: u64)
    ensures
        r == 3,
{
    3
}

pub fn default_health_check_acquire_timeout_ms() -> (r: u64)
    ensures
        r == 500,
{
    500
}

/// The methods CORS allows when none are named.
pub fn default_cors_methods() -> (r: Vec<String>)
    ensures
        r.deep_view() =~= seq!["GET"@, "POST"@, "PUT"@, "DELETE"@],
{
    let mut v: Vec<String> = Vec::new();
    v.push(String::from_str("GET"));
    v.push(String::from_str("POST"));
    v.push(String::from_str("PUT"));
    v.push(String::from_str("DELETE"));
    v
}

/// The collector endpoint assumed when none is named.
pub fn default_otel_endpoint() -> (r: String)
    ensures
        r@ == "http://localhost:4317"@,
{
    String::from_str("http://localhost:4317")
}

} // verus!
