//! The error taxonomy: every failure the services report, with its stable
//! machine code, HTTP status, safe client message and raw message, all fixed
//! by specification functions.

use crate::numfmt::decimal_chars;
use crate::uuids::fresh_uuid_u128;
use crate::uuids::format_uuid;
use crate::uuids::uuid_chars;
use vstd::prelude::*;

verus! {

/// Whether error bodies carry raw messages and details (`Debug`) or canned
/// per-kind messages (`Safe`).
#[derive(Clone, Copy, Debug, PartialEq, Eq, Structural)]
pub enum ErrorExposure {
    Debug,
    Safe,
}

/// Encodes an exposure choice as the byte the process-wide switch stores.
pub fn set_error_exposure(exposure: ErrorExposure) -> (code: u8)
    ensures
        code == (match exposure {
            ErrorExposure::Debug => 0u8,
            ErrorExposure::Safe => 1u8,
        }),
{
    match exposure {
        ErrorExposure::Debug => 0,
        ErrorExposure::Safe => 1,
    }
}

/// Decodes the stored byte of the process-wide switch; any unknown value
/// reads as `Safe`.
pub fn get_error_exposure(code: u8) -> (exposure: ErrorExposure)
    ensures
        exposure == (if code == 0 {
            ErrorExposure::Debug
        } else {
            ErrorExposure::Safe
        }),
{
    if code == 0 {
        ErrorExposure::Debug
    } else {
        ErrorExposure::Safe
    }
}

/// One failed check of one input field.
#[derive(Debug)]
pub struct FieldError {
    pub field: String,
    pub message: String,
}

/// The field-level findings of input validation.
#[derive(Debug)]
pub struct ValidationIssues {
    pub entries: Vec<FieldError>,
}

impl ValidationIssues {
    pub fn new() -> (r: ValidationIssues)
        ensures
            r.entries@.len() == 0,
    {
        ValidationIssues { entries: Vec::new() }
    }

    pub fn add(&mut self, field: &str, message: &str)
        ensures
            final(self).entries@.len() == old(self).entries@.len() + 1,
            final(self).entries@.last().field@ == field@,
            final(self).entries@.last().message@ == message@,
            forall|i: int|
                0 <= i < old(self).entries@.len() ==> final(self).entries@[i] == old(
                    self,
                ).entries@[i],
    {
        self.entries.push(
            FieldError { field: String::from_str(field), message: String::from_str(message) },
        );
    }

    pub fn is_empty(&self) -> (r: bool)
        ensures
            r == (self.entries@.len() == 0),
    {
        self.entries.len() == 0
    }
}

/// Identifies one reported error instance across logs and responses.
#[derive(Clone, Copy, Debug, PartialEq, Eq, Structural)]
pub struct ErrorId(pub u128);

/// Failures of the reservation engine, before translation to `AppError`.
#[derive(Debug)]
pub enum ReservationError {
    InsufficientStock { requested: i32, available: i32 },
    CarNotFound,
    ReservationNotFound,
    ReservationExpired,
    Database(String),
}

/// Failures of the transfer engine.
#[derive(Debug)]
pub enum TransferError {
    InsufficientStock { available: i32, requested: i32 },
    SourceWarehouseNotFound(String),
    DestinationWarehouseNotFound(String),
    TransferNotFound(u128),
    InvalidState { expected: String, found: String },
    Database(String),
}

/// What the database driver reported, reduced to what the translation needs.
#[derive(Debug)]
pub enum DbErrorKind {
    RowNotFound,
    Constraint { code: String, message: String },
    Other(String),
}

/// Every failure a service can report. Stable codes, statuses and messages
/// are fixed by the spec functions below.
#[derive(Debug)]
pub enum AppError {
    DatabaseError(String),
    MigrationError(String),
    NotFound,
    ConfigError(String),
    ValidationError(ValidationIssues),
    AlreadyExists(String),
    InvalidJson(String),
    Unauthorized,
    Forbidden,
    RateLimited { retry_after: u64 },
    ServiceUnavailable,
    NotImplemented,
    InsufficientStock { requested: u32, available: u32 },
    ReservationNotFound,
    ReservationExpired,
    ConcurrentModification,
    WarehouseNotFound(String),
    InvalidWarehouseOperation(String),
    TransferNotFound(u128),
    BusinessRuleViolation(String),
    BackgroundJobError(String),
    TransferError(TransferError),
    WithContext { source: Box<AppError>, context: String, error_id: ErrorId },
}

pub type AppResult<T> = Result<T, AppError>;

/// The stable machine code of an error.
pub open spec fn spec_error_code(e: AppError) -> Seq<char>
    decreases e,
{
    match e {
        AppError::NotFound => "RESOURCE_NOT_FOUND"@,
        AppError::ValidationError(_) => "VALIDATION_ERROR"@,
        AppError::AlreadyExists(_) => "RESOURCE_CONFLICT"@,
        AppError::InvalidJson(_) => "INVALID_INPUT"@,
        AppError::Unauthorized => "UNAUTHORIZED"@,
        AppError::Forbidden => "FORBIDDEN"@,
        AppError::RateLimited { .. } => "RATE_LIMITED"@,
        AppError::ServiceUnavailable => "SERVICE_UNAVAILABLE"@,
        AppError::NotImplemented => "RESOURCE_NOT_IMPLEMENTED"@,
        AppError::DatabaseError(_) => "DATABASE_ERROR"@,
        AppError::MigrationError(_) => "MIGRATION_ERROR"@,
        AppError::ConfigError(_) => "CONFIGURATION_ERROR"@,
        AppError::InsufficientStock { .. } => "INSUFFICIENT_STOCK"@,
        AppError::ReservationNotFound => "RESERVATION_NOT_FOUND"@,
        AppError::ReservationExpired => "RESERVATION_EXPIRED"@,
        AppError::ConcurrentModification => "CONCURRENT_MODIFICATION"@,
        AppError::WarehouseNotFound(_) => "WAREHOUSE_NOT_FOUND"@,
        AppError::InvalidWarehouseOperation(_) => "INVALID_WAREHOUSE_OPERATION"@,
        AppError::TransferNotFound(_) => "TRANSFER_NOT_FOUND"@,
        AppError::BusinessRuleViolation(_) => "BUSINESS_RULE_VIOLATION"@,
        AppError::BackgroundJobError(_) => "BACKGROUND_JOB_ERROR"@,
        AppError::TransferError(t) => match t {
            TransferError::InsufficientStock { .. } => "INSUFFICIENT_STOCK"@,
            TransferError::SourceWarehouseNotFound(_) => "SOURCE_WAREHOUSE_NOT_FOUND"@,
            TransferError::DestinationWarehouseNotFound(_) => "DESTINATION_WAREHOUSE_NOT_FOUND"@,
            TransferError::TransferNotFound(_) => "TRANSFER_NOT_FOUND"@,
            TransferError::InvalidState { .. } => "INVALID_TRANSFER_STATE"@,
            TransferError::Database(_) => "DATABASE_ERROR"@,
        },
        AppError::WithContext { source, .. } => spec_error_code(*source),
    }
}

/// The HTTP status of an error.
pub open spec fn spec_status_code(e: AppError) -> u16
    decreases e,
{
    match e {
        AppError::NotFound => 404u16,
        AppError::ValidationError(_) => 400u16,
        AppError::AlreadyExists(_) => 409u16,
        AppError::InvalidJson(_) => 400u16,
        AppError::Unauthorized => 401u16,
        AppError::Forbidden => 403u16,
        AppError::RateLimited { .. } => 429u16,
        AppError::ServiceUnavailable => 503u16,
        AppError::NotImplemented => 501u16,
        AppError::InsufficientStock { .. } => 409u16,
        AppError::ReservationNotFound => 404u16,
        AppError::ReservationExpired => 410u16,
        AppError::ConcurrentModification => 409u16,
        AppError::WarehouseNotFound(_) => 404u16,
        AppError::InvalidWarehouseOperation(_) => 400u16,
        AppError::TransferNotFound(_) => 404u16,
        AppError::BusinessRuleViolation(_) => 422u16,
        AppError::BackgroundJobError(_) => 500u16,
        AppError::TransferError(t) => match t {
            TransferError::InsufficientStock { .. } => 409u16,
            TransferError::SourceWarehouseNotFound(_) => 404u16,
            TransferError::DestinationWarehouseNotFound(_) => 404u16,
            TransferError::TransferNotFound(_) => 404u16,
            TransferError::InvalidState { .. } => 409u16,
            TransferError::Database(_) => 500u16,
        },
        AppError::WithContext { source, .. } => spec_status_code(*source),
        _ => 500u16,
    }
}

/// The canned message shown to clients under `Safe` exposure.
pub open spec fn spec_safe_message(e: AppError) -> Seq<char>
    decreases e,
{
    match e {
        AppError::NotFound => "The requested resource was not found"@,
        AppError::ValidationError(_) => "The provided data failed validation"@,
        AppError::AlreadyExists(_) => "The resource already exists"@,
        AppError::InvalidJson(_) => "The request contains invalid data"@,
        AppError::Unauthorized => "Authentication is required to access this resource"@,
        AppError::Forbidden => "You do not have permission to perform this action"@,
        AppError::RateLimited { retry_after } => "Rate limit exceeded. Please retry after "@
            + decimal_chars(retry_after as int) + " seconds"@,
        AppError::ServiceUnavailable => "Service temporarily unavailable. Please try again later"@,
        AppError::NotImplemented => "This feature is not yet implemented"@,
        AppError::InsufficientStock { .. } => "Insufficient stock available for this operation"@,
        AppError::ReservationNotFound => "Reservation not found or has expired"@,
        AppError::ReservationExpired => "Reservation has expired"@,
        AppError::ConcurrentModification =>
            "Resource was modified by another process. Please retry"@,
        AppError::WarehouseNotFound(_) => "Warehouse not found"@,
        AppError::InvalidWarehouseOperation(_) => "Invalid warehouse operation"@,
        AppError::TransferNotFound(_) => "Transfer order not found"@,
        AppError::BusinessRuleViolation(_) => "This operation violates business rules"@,
        AppError::BackgroundJobError(_) => "Background processing error occurred"@,
        AppError::DatabaseError(_) =>
            "An internal error occurred. Please contact support if the problem persists"@,
        AppError::MigrationError(_) =>
            "An internal error occurred. Please contact support if the problem persists"@,
        AppError::ConfigError(_) => "Service configuration error"@,
        AppError::TransferError(t) => match t {
            TransferError::InsufficientStock { .. } => "Insufficient stock in source warehouse"@,
            TransferError::SourceWarehouseNotFound(_) => "Source warehouse not found"@,
            TransferError::DestinationWarehouseNotFound(_) =>
                "Destination warehouse not found"@,
            TransferError::TransferNotFound(_) => "Transfer order not found"@,
            TransferError::InvalidState { .. } =>
                "Transfer is in an invalid state for this operation"@,
            TransferError::Database(_) => "An internal error occurred"@,
        },
        AppError::WithContext { source, .. } => spec_safe_message(*source),
    }
}

/// The raw message of a transfer-engine error.
pub open spec fn spec_transfer_message(t: TransferError) -> Seq<char> {
    match t {
        TransferError::InsufficientStock { available, requested } =>
            "Source warehouse has insufficient stock: available "@ + int_decimal_chars(
                available as int,
            ) + ", requested "@ + int_decimal_chars(requested as int),
        TransferError::SourceWarehouseNotFound(s) => "Source warehouse not found: "@ + s@,
        TransferError::DestinationWarehouseNotFound(s) => "Destination warehouse not found: "@
            + s@,
        TransferError::TransferNotFound(u) => "Transfer not found: "@ + uuid_chars(u as int),
        TransferError::InvalidState { expected, found } => "Invalid transfer state: expected "@
            + expected@ + ", found "@ + found@,
        TransferError::Database(s) => "Database error: "@ + s@,
    }
}

/// The decimal rendering of an integer, with a sign for negatives.
pub open spec fn int_decimal_chars(n: int) -> Seq<char> {
    if n < 0 {
        seq!['-'] + decimal_chars(-n)
    } else {
        decimal_chars(n)
    }
}

/// The raw message of an error, shown under `Debug` exposure and in logs.
pub open spec fn spec_display_message(e: AppError) -> Seq<char>
    decreases e,
{
    match e {
        AppError::DatabaseError(s) => "Database error: "@ + s@,
        AppError::MigrationError(s) => "Migration error: "@ + s@,
        AppError::NotFound => "Resource not found"@,
        AppError::ConfigError(s) => "Configuration error: "@ + s@,
        AppError::ValidationError(_) => "Validation failed"@,
        AppError::AlreadyExists(s) => "Resource already exists: "@ + s@,
        AppError::InvalidJson(s) => "Invalid input: "@ + s@,
        AppError::Unauthorized => "Authentication required"@,
        AppError::Forbidden => "Insufficient permissions"@,
        AppError::RateLimited { retry_after } => "Rate limit exceeded. Retry after: "@
            + decimal_chars(retry_after as int) + "s"@,
        AppError::ServiceUnavailable => "Service temporarily unavailable"@,
        AppError::NotImplemented => "Feature not yet implemented"@,
        AppError::InsufficientStock { requested, available } => "Insufficient stock: requested "@
            + decimal_chars(requested as int) + ", available "@ + decimal_chars(
            available as int,
        ),
        AppError::ReservationNotFound => "Reservation not found or expired"@,
        AppError::ReservationExpired => "Reservation expired"@,
        AppError::ConcurrentModification =>
            "Concurrent modification detected. Resource was modified by another process"@,
        AppError::WarehouseNotFound(s) => "Warehouse not found: "@ + s@,
        AppError::InvalidWarehouseOperation(s) => "Invalid warehouse operation: "@ + s@,
        AppError::TransferNotFound(u) => "Transfer not found: "@ + uuid_chars(u as int),
        AppError::BusinessRuleViolation(s) => "Business rule violation: "@ + s@,
        AppError::BackgroundJobError(s) => "Background job failed: "@ + s@,
        AppError::TransferError(t) => "Transfer error: "@ + spec_transfer_message(t),
        AppError::WithContext { context, .. } => "Context: "@ + context@,
    }
}

/// The full context chain of an error, root first.
pub open spec fn spec_error_chain(e: AppError) -> Seq<char>
    decreases e,
{
    match e {
        AppError::WithContext { source, context, .. } => spec_error_chain(*source) + " -> "@
            + "[Context: "@ + context@ + "]"@,
        _ => "[Root: "@ + spec_display_message(e) + "]"@,
    }
}

impl AppError {
    /// The stable machine code of this error.
    pub fn error_code(&self) -> (r: &'static str)
        ensures
            r@ == spec_error_code(*self),
        decreases *self,
    {
        match self {
            AppError::NotFound => "RESOURCE_NOT_FOUND",
            AppError::ValidationError(_) => "VALIDATION_ERROR",
            AppError::AlreadyExists(_) => "RESOURCE_CONFLICT",
            AppError::InvalidJson(_) => "INVALID_INPUT",
            AppError::Unauthorized => "UNAUTHORIZED",
            AppError::Forbidden => "FORBIDDEN",
            AppError::RateLimited { .. } => "RATE_LIMITED",
            AppError::ServiceUnavailable => "SERVICE_UNAVAILABLE",
            AppError::NotImplemented => "RESOURCE_NOT_IMPLEMENTED",
            AppError::DatabaseError(_) => "DATABASE_ERROR",
            AppError::MigrationError(_) => "MIGRATION_ERROR",
            AppError::ConfigError(_) => "CONFIGURATION_ERROR",
            AppError::InsufficientStock { .. } => "INSUFFICIENT_STOCK",
            AppError::ReservationNotFound => "RESERVATION_NOT_FOUND",
            AppError::ReservationExpired => "RESERVATION_EXPIRED",
            AppError::ConcurrentModification => "CONCURRENT_MODIFICATION",
            AppError::WarehouseNotFound(_) => "WAREHOUSE_NOT_FOUND",
            AppError::InvalidWarehouseOperation(_) => "INVALID_WAREHOUSE_OPERATION",
            AppError::TransferNotFound(_) => "TRANSFER_NOT_FOUND",
            AppError::BusinessRuleViolation(_) => "BUSINESS_RULE_VIOLATION",
            AppError::BackgroundJobError(_) => "BACKGROUND_JOB_ERROR",
            AppError::TransferError(t) => match t {
                TransferError::InsufficientStock { .. } => "INSUFFICIENT_STOCK",
                TransferError::SourceWarehouseNotFound(_) => "SOURCE_WAREHOUSE_NOT_FOUND",
                TransferError::DestinationWarehouseNotFound(_) =>
                    "DESTINATION_WAREHOUSE_NOT_FOUND",
                TransferError::TransferNotFound(_) => "TRANSFER_NOT_FOUND",
                TransferError::InvalidState { .. } => "INVALID_TRANSFER_STATE",
                TransferError::Database(_) => "DATABASE_ERROR",
            },
            AppError::WithContext { source, .. } => source.error_code(),
        }
    }

    /// The HTTP status this error maps to at the edge.
    pub fn status_code(&self) -> (r: u16)
        ensures
            r == spec_status_code(*self),
        decreases *self,
    {
        match self {
            AppError::NotFound => 404,
            AppError::ValidationError(_) => 400,
            AppError::AlreadyExists(_) => 409,
            AppError::InvalidJson(_) => 400,
            AppError::Unauthorized => 401,
            AppError::Forbidden => 403,
            AppError::RateLimited { .. } => 429,
            AppError::ServiceUnavailable => 503,
            AppError::NotImplemented => 501,
            AppError::InsufficientStock { .. } => 409,
            AppError::ReservationNotFound => 404,
            AppError::ReservationExpired => 410,
            AppError::ConcurrentModification => 409,
            AppError::WarehouseNotFound(_) => 404,
            AppError::InvalidWarehouseOperation(_) => 400,
            AppError::TransferNotFound(_) => 404,
            AppError::BusinessRuleViolation(_) => 422,
            AppError::BackgroundJobError(_) => 500,
            AppError::TransferError(t) => match t {
                TransferError::InsufficientStock { .. } => 409,
                TransferError::SourceWarehouseNotFound(_) => 404,
                TransferError::DestinationWarehouseNotFound(_) => 404,
                TransferError::TransferNotFound(_) => 404,
                TransferError::InvalidState { .. } => 409,
                TransferError::Database(_) => 500,
            },
            AppError::WithContext { source, .. } => source.status_code(),
            _ => 500,
        }
    }

    /// The canned message shown to clients under `Safe` exposure.
    pub fn safe_message(&self) -> (r: String)
        ensures
            r@ == spec_safe_message(*self),
        decreases *self,
    {
        match self {
            AppError::NotFound => String::from_str("The requested resource was not found"),
            AppError::ValidationError(_) => String::from_str(
                "The provided data failed validation",
            ),
            AppError::AlreadyExists(_) => String::from_str("The resource already exists"),
            AppError::InvalidJson(_) => String::from_str("The request contains invalid data"),
            AppError::Unauthorized => String::from_str(
                "Authentication is required to access this resource",
            ),
            AppError::Forbidden => String::from_str(
                "You do not have permission to perform this action",
            ),
            AppError::RateLimited { retry_after } => {
                let mut s = String::from_str("Rate limit exceeded. Please retry after ");
                let n = crate::numfmt::u64_to_string(*retry_after);
                s.append(n.as_str());
                s.append(" seconds");
                s
            },
            AppError::ServiceUnavailable => String::from_str(
                "Service temporarily unavailable. Please try again later",
            ),
            AppError::NotImplemented => String::from_str("This feature is not yet implemented"),
            AppError::InsufficientStock { .. } => String::from_str(
                "Insufficient stock available for this operation",
            ),
            AppError::ReservationNotFound => String::from_str(
                "Reservation not found or has expired",
            ),
            AppError::ReservationExpired => String::from_str("Reservation has expired"),
            AppError::ConcurrentModification => String::from_str(
                "Resource was modified by another process. Please retry",
            ),
            AppError::WarehouseNotFound(_) => String::from_str("Warehouse not found"),
            AppError::InvalidWarehouseOperation(_) => String::from_str(
                "Invalid warehouse operation",
            ),
            AppError::TransferNotFound(_) => String::from_str("Transfer order not found"),
            AppError::BusinessRuleViolation(_) => String::from_str(
                "This operation violates business rules",
            ),
            AppError::BackgroundJobError(_) => String::from_str(
                "Background processing error occurred",
            ),
            AppError::DatabaseError(_) => String::from_str(
                "An internal error occurred. Please contact support if the problem persists",
            ),
            AppError::MigrationError(_) => String::from_str(
                "An internal error occurred. Please contact support if the problem persists",
            ),
            AppError::ConfigError(_) => String::from_str("Service configuration error"),
            AppError::TransferError(t) => match t {
                TransferError::InsufficientStock { .. } => String::from_str(
                    "Insufficient stock in source warehouse",
                ),
                TransferError::SourceWarehouseNotFound(_) => String::from_str(
                    "Source warehouse not found",
                ),
                TransferError::DestinationWarehouseNotFound(_) => String::from_str(
                    "Destination warehouse not found",
                ),
                TransferError::TransferNotFound(_) => String::from_str(
                    "Transfer order not found",
                ),
                TransferError::InvalidState { .. } => String::from_str(
                    "Transfer is in an invalid state for this operation",
                ),
                TransferError::Database(_) => String::from_str("An internal error occurred"),
            },
            AppError::WithContext { source, .. } => source.safe_message(),
        }
    }

    /// The raw message of this error, shown under `Debug` exposure.
    pub fn display_message(&self) -> (r: String)
        ensures
            r@ == spec_display_message(*self),
    {
        match self {
            AppError::DatabaseError(s) => concat_str("Database error: ", s),
            AppError::MigrationError(s) => concat_str("Migration error: ", s),
            AppError::NotFound => String::from_str("Resource not found"),
            AppError::ConfigError(s) => concat_str("Configuration error: ", s),
            AppError::ValidationError(_) => String::from_str("Validation failed"),
            AppError::AlreadyExists(s) => concat_str("Resource already exists: ", s),
            AppError::InvalidJson(s) => concat_str("Invalid input: ", s),
            AppError::Unauthorized => String::from_str("Authentication required"),
            AppError::Forbidden => String::from_str("Insufficient permissions"),
            AppError::RateLimited { retry_after } => {
                let mut s = String::from_str("Rate limit exceeded. Retry after: ");
                let n = crate::numfmt::u64_to_string(*retry_after);
                s.append(n.as_str());
                s.append("s");
                s
            },
            AppError::ServiceUnavailable => String::from_str("Service temporarily unavailable"),
            AppError::NotImplemented => String::from_str("Feature not yet implemented"),
            AppError::InsufficientStock { requested, available } => {
                let mut s = String::from_str("Insufficient stock: requested ");
                let r1 = crate::numfmt::u64_to_string(*requested as u64);
                s.append(r1.as_str());
                s.append(", available ");
                let r2 = crate::numfmt::u64_to_string(*available as u64);
                s.append(r2.as_str());
                s
            },
            AppError::ReservationNotFound => String::from_str("Reservation not found or expired"),
            AppError::ReservationExpired => String::from_str("Reservation expired"),
            AppError::ConcurrentModification => String::from_str(
                "Concurrent modification detected. Resource was modified by another process",
            ),
            AppError::WarehouseNotFound(s) => concat_str("Warehouse not found: ", s),
            AppError::InvalidWarehouseOperation(s) => concat_str(
                "Invalid warehouse operation: ",
                s,
            ),
            AppError::TransferNotFound(u) => {
                let mut s = String::from_str("Transfer not found: ");
                let t = format_uuid(*u);
                s.append(t.as_str());
                s
            },
            AppError::BusinessRuleViolation(s) => concat_str("Business rule violation: ", s),
            AppError::BackgroundJobError(s) => concat_str("Background job failed: ", s),
            AppError::TransferError(t) => {
                let mut s = String::from_str("Transfer error: ");
                let m = transfer_message(t);
                s.append(m.as_str());
                s
            },
            AppError::WithContext { context, .. } => concat_str("Context: ", context),
        }
    }

    /// The identity carried by a context wrapper; any other error gets a
    /// fresh one, as each report does.
    pub fn error_id(&self) -> (r: ErrorId)
        ensures
            self matches AppError::WithContext { error_id, .. } ==> r == error_id,
    {
        match self {
            AppError::WithContext { error_id, .. } => *error_id,
            _ => ErrorId(fresh_uuid_u128()),
        }
    }

    /// Wraps this error with one more level of context, under a fresh id.
    pub fn with_context(self, context: String) -> (r: AppError)
        ensures
            r matches AppError::WithContext { source, context: c, .. } && *source == self && c
                == context,
    {
        AppError::WithContext {
            source: Box::new(self),
            context,
            error_id: ErrorId(fresh_uuid_u128()),
        }
    }

    /// The full context chain of this error, root first.
    pub fn format_error_chain(&self) -> (r: String)
        ensures
            r@ == spec_error_chain(*self),
        decreases *self,
    {
        match self {
            AppError::WithContext { source, context, .. } => {
                let mut s = source.format_error_chain();
                s.append(" -> ");
                s.append("[Context: ");
                s.append(context.as_str());
                s.append("]");
                s
            },
            _ => {
                let mut s = String::from_str("[Root: ");
                let m = self.display_message();
                s.append(m.as_str());
                s.append("]");
                s
            },
        }
    }

    /// Translates what the database driver reported into the domain error for
    /// the named resource: a unique violation is a conflict, a foreign-key
    /// violation bad input, a check violation a business-rule violation.
    pub fn from_db(kind: DbErrorKind, resource: &str) -> (r: AppError)
        ensures
            kind matches DbErrorKind::RowNotFound ==> r == AppError::NotFound,
            kind matches DbErrorKind::Constraint { code, message } ==> {
                if code@ == "23505"@ {
                    r matches AppError::AlreadyExists(s) && s@ == resource@
                        + " already exists"@
                } else if code@ == "23503"@ {
                    r matches AppError::InvalidJson(s) && s@ == "Foreign key violation in "@
                        + resource@
                } else if code@ == "23514"@ {
                    r matches AppError::BusinessRuleViolation(s) && s@
                        == "Check constraint violation in "@ + resource@
                } else {
                    r == AppError::DatabaseError(message)
                }
            },
            kind matches DbErrorKind::Other(m) ==> r == AppError::DatabaseError(m),
    {
        match kind {
            DbErrorKind::RowNotFound => AppError::NotFound,
            DbErrorKind::Constraint { code, message } => {
                if crate::textutil::str_eq(code.as_str(), "23505") {
                    let mut s = String::from_str(resource);
                    s.append(" already exists");
                    AppError::AlreadyExists(s)
                } else if crate::textutil::str_eq(code.as_str(), "23503") {
                    let mut s = String::from_str("Foreign key violation in ");
                    s.append(resource);
                    AppError::InvalidJson(s)
                } else if crate::textutil::str_eq(code.as_str(), "23514") {
                    let mut s = String::from_str("Check constraint violation in ");
                    s.append(resource);
                    AppError::BusinessRuleViolation(s)
                } else {
                    AppError::DatabaseError(message)
                }
            },
            DbErrorKind::Other(m) => AppError::DatabaseError(m),
        }
    }
}

/// The raw message of a transfer-engine error.
pub fn transfer_message(t: &TransferError) -> (r: String)
    ensures
        r@ == spec_transfer_message(*t),
{
    match t {
        TransferError::InsufficientStock { available, requested } => {
            let mut s = String::from_str("Source warehouse has insufficient stock: available ");
            let a = i64_to_string(*available as i64);
            s.append(a.as_str());
            s.append(", requested ");
            let q = i64_to_string(*requested as i64);
            s.append(q.as_str());
            s
        },
        TransferError::SourceWarehouseNotFound(w) => concat_str(
            "Source warehouse not found: ",
            w,
        ),
        TransferError::DestinationWarehouseNotFound(w) => concat_str(
            "Destination warehouse not found: ",
            w,
        ),
        TransferError::TransferNotFound(u) => {
            let mut s = String::from_str("Transfer not found: ");
            let t2 = format_uuid(*u);
            s.append(t2.as_str());
            s
        },
        TransferError::InvalidState { expected, found } => {
            let mut s = String::from_str("Invalid transfer state: expected ");
            s.append(expected.as_str());
            s.append(", found ");
            s.append(found.as_str());
            s
        },
        TransferError::Database(m) => concat_str("Database error: ", m),
    }
}

/// Renders a signed integer in decimal.
pub fn i64_to_string(n: i64) -> (r: String)
    ensures
        r@ == int_decimal_chars(n as int),
{
    if n < 0 {
        let mut s = String::from_str("-");
        proof {
            reveal_strlit("-");
        }
        let mag: u64 = if n == i64::MIN {
            9223372036854775808u64
        } else {
            (-n) as u64
        };
        let d = crate::numfmt::u64_to_string(mag);
        s.append(d.as_str());
        proof {
            assert(s@ =~= int_decimal_chars(n as int));
        }
        s
    } else {
        crate::numfmt::u64_to_string(n as u64)
    }
}

fn concat_str(prefix: &'static str, s: &String) -> (r: String)
    ensures
        r@ == prefix@ + s@,
{
    let mut r = String::from_str(prefix);
    r.append(s.as_str());
    r
}

/// Translates a reservation-engine error into the service-level error, as
/// the reservation service reports it.
pub fn app_error_of_reservation(e: ReservationError) -> (r: AppError)
    ensures
        r == (match e {
            ReservationError::InsufficientStock { requested, available } =>
                AppError::InsufficientStock {
                    requested: (if requested >= 0 {
                        requested as u32
                    } else {
                        0u32
                    }),
                    available: (if available >= 0 {
                        available as u32
                    } else {
                        0u32
                    }),
                },
            ReservationError::CarNotFound => AppError::NotFound,
            ReservationError::ReservationNotFound => AppError::ReservationNotFound,
            ReservationError::ReservationExpired => AppError::ReservationExpired,
            ReservationError::Database(m) => AppError::DatabaseError(m),
        }),
{
    match e {
        ReservationError::InsufficientStock { requested, available } => {
            let rq: u32 = if requested >= 0 {
                requested as u32
            } else {
                0
            };
            let av: u32 = if available >= 0 {
                available as u32
            } else {
                0
            };
            AppError::InsufficientStock { requested: rq, available: av }
        },
        ReservationError::CarNotFound => AppError::NotFound,
        ReservationError::ReservationNotFound => AppError::ReservationNotFound,
        ReservationError::ReservationExpired => AppError::ReservationExpired,
        ReservationError::Database(m) => AppError::DatabaseError(m),
    }
}

} // verus!
