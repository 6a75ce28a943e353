//! The pure parts of the request pipeline: the per-request context with
//! its propagated identifiers, the in-flight counter that shutdown drains,
//! the drain decision itself, and the error envelope rendered to clients.

use crate::errors::AppError;
use crate::errors::ErrorExposure;
use crate::errors::ErrorId;
use crate::errors::FieldError;
use crate::errors::spec_display_message;
use crate::errors::spec_error_code;
use crate::errors::spec_safe_message;
use crate::uuids::format_uuid;
use crate::uuids::uuid_chars;
use vstd::prelude::*;

verus! {

/// What one request carries through the pipeline. The start time is a
/// millisecond reading on the caller's clock.
pub struct RequestContext {
    pub request_id: String,
    pub tenant_id: Option<String>,
    pub user_id: Option<String>,
    pub start_time_ms: u64,
    pub path: String,
    pub method: String,
}

impl RequestContext {
    /// Builds the context: the request identifier is taken from the
    /// header when present and minted otherwise, and the informational
    /// tenant and user identifiers pass through untouched.
    pub fn new(
        header_request_id: Option<String>,
        tenant_id: Option<String>,
        user_id: Option<String>,
        now_ms: u64,
        path: String,
        method: String,
    ) -> (r: RequestContext)
        ensures
            match header_request_id {
                Some(h) => r.request_id == h,
                None => r.request_id@.len() == 36,
            },
            r.tenant_id == tenant_id,
            r.user_id == user_id,
            r.start_time_ms == now_ms,
            r.path == path,
            r.method == method,
    {
        let request_id = match header_request_id {
            Some(h) => h,
            None => {
                let minted = format_uuid(crate::uuids::fresh_uuid_u128());
                proof {
                    lemma_uuid_chars_len36(minted@);
                }
                minted
            },
        };
        RequestContext { request_id, tenant_id, user_id, start_time_ms: now_ms, path, method }
    }

    /// Milliseconds elapsed since the request began, by the same clock.
    pub fn elapsed_ms(&self, now_ms: u64) -> (r: u64)
        ensures
            r == (if now_ms >= self.start_time_ms {
                (now_ms - self.start_time_ms) as u64
            } else {
                0u64
            }),
    {
        if now_ms >= self.start_time_ms {
            now_ms - self.start_time_ms
        } else {
            0
        }
    }
}

/// The hyphenated UUID text form is always 36 characters.
proof fn lemma_uuid_chars_len36(s: Seq<char>)
    requires
        exists|n: int| s == uuid_chars(n),
    ensures
        s.len() == 36,
{
    let n = choose|n: int| s == uuid_chars(n);
    lemma_hex_chars_len(n / 0x1000000000000000000000000, 8);
    lemma_hex_chars_len((n / 0x100000000000000000000) % 0x10000, 4);
    lemma_hex_chars_len((n / 0x10000000000000000) % 0x10000, 4);
    lemma_hex_chars_len((n / 0x1000000000000) % 0x10000, 4);
    lemma_hex_chars_len(n % 0x1000000000000, 12);
}

/// Fixed-width hexadecimal text has its width.
proof fn lemma_hex_chars_len(n: int, width: nat)
    ensures
        crate::numfmt::hex_chars(n, width).len() == width,
    decreases width,
{
    if width > 0 {
        lemma_hex_chars_len(n / 16, (width - 1) as nat);
    }
}

/// The in-flight request counter that shutdown drains.
pub struct InFlightCounter {
    pub count: u64,
}

impl InFlightCounter {
    /// An idle counter.
    pub fn new() -> (r: InFlightCounter)
        ensures
            r.count == 0,
    {
        InFlightCounter { count: 0 }
    }

    /// One more request in flight.
    pub fn increment(&mut self)
        requires
            old(self).count < u64::MAX,
        ensures
            final(self).count == old(self).count + 1,
    {
        self.count = self.count + 1;
    }

    /// One request finished, even on failure.
    pub fn decrement(&mut self)
        ensures
            final(self).count == (if old(self).count > 0 {
                (old(self).count - 1) as u64
            } else {
                0u64
            }),
    {
        if self.count > 0 {
            self.count = self.count - 1;
        }
    }

    /// How many requests are in flight.
    pub fn active(&self) -> (r: u64)
        ensures
            r == self.count,
    {
        self.count
    }
}

/// What the drain loop does next: finish when nothing is in flight, give
/// up at the deadline, otherwise wait and poll again.
#[derive(Clone, Copy, Debug, PartialEq, Eq, Structural)]
pub enum DrainStep {
    Done,
    TimedOut,
    Wait,
}

/// Decides one drain poll from the in-flight count and the elapsed time.
pub fn drain_step(active: u64, elapsed_ms: u64, timeout_ms: u64) -> (r: DrainStep)
    ensures
        r == (if active == 0 {
            DrainStep::Done
        } else if elapsed_ms > timeout_ms {
            DrainStep::TimedOut
        } else {
            DrainStep::Wait
        }),
{
    if active == 0 {
        DrainStep::Done
    } else if elapsed_ms > timeout_ms {
        DrainStep::TimedOut
    } else {
        DrainStep::Wait
    }
}

/// The log severity class of a response status.
#[derive(Clone, Copy, Debug, PartialEq, Eq, Structural)]
pub enum StatusClass {
    ServerError,
    ClientError,
    Success,
}

/// Classifies a response status for logging: 5xx are server errors, 4xx
/// client errors, the rest ordinary.
pub fn status_class(status: u16) -> (r: StatusClass)
    ensures
        r == (if 500 <= status < 600 {
            StatusClass::ServerError
        } else if 400 <= status < 500 {
            StatusClass::ClientError
        } else {
            StatusClass::Success
        }),
{
    if 500 <= status && status < 600 {
        StatusClass::ServerError
    } else if 400 <= status && status < 500 {
        StatusClass::ClientError
    } else {
        StatusClass::Success
    }
}

/// The error body rendered to clients, apart from its JSON framing.
pub struct ErrorEnvelope {
    pub code: String,
    pub message: String,
    pub error_id: String,
    pub field_errors: Vec<FieldError>,
    pub context: Option<String>,
    pub request_id: Option<String>,
    pub documentation: Option<String>,
    pub timestamp: String,
    pub status: u16,
    pub retry_after: Option<u64>,
}

/// The documentation link of an error, when one exists.
pub open spec fn spec_documentation(e: AppError) -> Option<Seq<char>> {
    match e {
        AppError::NotFound => Some("https://docs.yourapi.com/errors/not-found"@),
        AppError::ValidationError(_) => Some("https://docs.yourapi.com/errors/validation"@),
        AppError::RateLimited { .. } => Some("https://docs.yourapi.com/errors/rate-limiting"@),
        AppError::Unauthorized => Some("https://docs.yourapi.com/errors/authentication"@),
        AppError::Forbidden => Some("https://docs.yourapi.com/errors/authorization"@),
        _ => None,
    }
}

/// The documentation link of an error.
pub fn documentation_url(e: &AppError) -> (r: Option<String>)
    ensures
        match spec_documentation(*e) {
            Some(u) => r matches Some(s) && s@ == u,
            None => r is None,
        },
{
    match e {
        AppError::NotFound => Some(String::from_str("https://docs.yourapi.com/errors/not-found")),
        AppError::ValidationError(_) => Some(
            String::from_str("https://docs.yourapi.com/errors/validation"),
        ),
        AppError::RateLimited { .. } => Some(
            String::from_str("https://docs.yourapi.com/errors/rate-limiting"),
        ),
        AppError::Unauthorized => Some(
            String::from_str("https://docs.yourapi.com/errors/authentication"),
        ),
        AppError::Forbidden => Some(
            String::from_str("https://docs.yourapi.com/errors/authorization"),
        ),
        _ => None,
    }
}

/// Renders the error envelope: under `Debug` exposure the raw message and
/// every detail; under `Safe` the canned per-kind message, with field
/// details kept only for validation errors. The error identity is always
/// present, and a rate-limit failure carries its retry delay.
pub fn render_error(
    e: &AppError,
    exposure: ErrorExposure,
    error_id: ErrorId,
    request_id: Option<String>,
    timestamp: String,
) -> (r: ErrorEnvelope)
    ensures
        r.code@ == spec_error_code(*e),
        r.status == crate::errors::spec_status_code(*e),
        r.error_id@ == uuid_chars(error_id.0 as int),
        r.message@ == (if exposure == ErrorExposure::Debug {
            spec_display_message(*e)
        } else {
            spec_safe_message(*e)
        }),
        r.timestamp == timestamp,
        r.request_id == request_id,
        r.retry_after == (match e {
            AppError::RateLimited { retry_after } => Some(*retry_after),
            _ => None,
        }),
{
    let code = String::from_str(e.error_code());
    let status = e.status_code();
    let message = if exposure == ErrorExposure::Debug {
        e.display_message()
    } else {
        e.safe_message()
    };
    let (field_errors, context) = match (exposure, e) {
        (_, AppError::ValidationError(v)) => (copy_field_errors(&v.entries), None),
        (ErrorExposure::Debug, AppError::InvalidJson(m)) => (Vec::new(), Some(m.clone())),
        (ErrorExposure::Debug, AppError::WithContext { context, .. }) => (
            Vec::new(),
            Some(context.clone()),
        ),
        _ => (Vec::new(), None),
    };
    let retry_after = match e {
        AppError::RateLimited { retry_after } => Some(*retry_after),
        _ => None,
    };
    ErrorEnvelope {
        code,
        message,
        error_id: format_uuid(error_id.0),
        field_errors,
        context,
        request_id,
        documentation: documentation_url(e),
        timestamp,
        status,
        retry_after,
    }
}

/// Copies the field findings of a validation error.
#[verifier::loop_isolation(false)]
fn copy_field_errors(entries: &Vec<FieldError>) -> (r: Vec<FieldError>)
    ensures
        r@.len() == entries@.len(),
        forall|i: int|
            0 <= i < entries@.len() ==> (#[trigger] r@[i]).field@ == entries@[i].field@
                && r@[i].message@ == entries@[i].message@,
{
    let n = entries.len();
    let mut r: Vec<FieldError> = Vec::new();
    let mut i: usize = 0;
    while i < n
        invariant
            i <= n,
            n == entries@.len(),
            r@.len() == i,
            forall|j: int|
                0 <= j < i ==> (#[trigger] r@[j]).field@ == entries@[j].field@ && r@[j].message@
                    == entries@[j].message@,
        decreases n - i,
    {
        r.push(
            FieldError {
                field: entries[i].field.clone(),
                message: entries[i].message.clone(),
            },
        );
        i += 1;
    }
    r
}

} // verus!
