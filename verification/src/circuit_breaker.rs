//! The circuit breaker guarding the database-facing path: a Closed, Open
//! or Half-Open state machine over consecutive-failure and recovery
//! counters. Every transition is fixed by a specification function, so the
//! legal graph of the breaker is part of its contract.

use crate::errors::AppError;
use vstd::prelude::*;

verus! {

#[derive(Clone, Copy, Debug, PartialEq, Eq, Structural)]
pub enum CircuitState {
    Closed,
    Open,
    HalfOpen,
}

/// The text name of a breaker state.
pub open spec fn circuit_state_chars(s: CircuitState) -> Seq<char> {
    match s {
        CircuitState::Closed => "Closed"@,
        CircuitState::Open => "Open"@,
        CircuitState::HalfOpen => "HalfOpen"@,
    }
}

/// Renders a breaker state name.
pub fn circuit_state_name(s: CircuitState) -> (r: &'static str)
    ensures
        r@ == circuit_state_chars(s),
{
    match s {
        CircuitState::Closed => "Closed",
        CircuitState::Open => "Open",
        CircuitState::HalfOpen => "HalfOpen",
    }
}

/// Breaker tuning: how many consecutive failures trip it, how many
/// half-open successes close it, how long it dwells open (milliseconds),
/// and how many probes may run half-open in parallel.
#[derive(Clone, Copy, Debug)]
pub struct CircuitBreakerConfig {
    pub failure_threshold: u32,
    pub success_threshold: u32,
    pub open_duration_ms: u64,
    pub half_open_max_calls: u32,
}

/// A usable tuning: both thresholds are at least one.
pub open spec fn config_wf(c: CircuitBreakerConfig) -> bool {
    c.failure_threshold >= 1 && c.success_threshold >= 1
}

impl Default for CircuitBreakerConfig {
    /// The standard tuning: trip after 5 failures, close after 3
    /// half-open successes, dwell open 30 seconds, 3 parallel probes.
    fn default() -> (r: CircuitBreakerConfig)
        ensures
            r.failure_threshold == 5,
            r.success_threshold == 3,
            r.open_duration_ms == 30000,
            r.half_open_max_calls == 3,
    {
        CircuitBreakerConfig {
            failure_threshold: 5,
            success_threshold: 3,
            open_duration_ms: 30000,
            half_open_max_calls: 3,
        }
    }
}

impl CircuitBreakerConfig {
    /// A quick-tripping tuning for fragile dependencies.
    pub fn aggressive() -> (r: CircuitBreakerConfig)
        ensures
            r.failure_threshold == 3,
            r.success_threshold == 2,
            r.open_duration_ms == 10000,
            r.half_open_max_calls == 2,
    {
        CircuitBreakerConfig {
            failure_threshold: 3,
            success_threshold: 2,
            open_duration_ms: 10000,
            half_open_max_calls: 2,
        }
    }

    /// A tolerant tuning for dependencies with long recoveries.
    pub fn relaxed() -> (r: CircuitBreakerConfig)
        ensures
            r.failure_threshold == 10,
            r.success_threshold == 5,
            r.open_duration_ms == 60000,
            r.half_open_max_calls == 5,
    {
        CircuitBreakerConfig {
            failure_threshold: 10,
            success_threshold: 5,
            open_duration_ms: 60000,
            half_open_max_calls: 5,
        }
    }
}

/// Why the breaker refused a call, or the wrapped operation's own error.
pub enum CircuitError<E> {
    Open,
    HalfOpenLimit,
    Underlying(E),
}

impl From<CircuitError<AppError>> for AppError {
    /// Both breaker-level refusals surface as service unavailability; an
    /// underlying error passes through.
    fn from(e: CircuitError<AppError>) -> (r: AppError) {
        match e {
            CircuitError::Open => AppError::ServiceUnavailable,
            CircuitError::HalfOpenLimit => AppError::ServiceUnavailable,
            CircuitError::Underlying(a) => a,
        }
    }
}

impl vstd::std_specs::convert::FromSpecImpl<CircuitError<AppError>> for AppError {
    open spec fn obeys_from_spec() -> bool {
        true
    }

    open spec fn from_spec(e: CircuitError<AppError>) -> AppError {
        match e {
            CircuitError::Open => AppError::ServiceUnavailable,
            CircuitError::HalfOpenLimit => AppError::ServiceUnavailable,
            CircuitError::Underlying(a) => a,
        }
    }
}

/// The breaker's whole state. Times are milliseconds on a monotonic
/// clock supplied by the caller.
pub struct CircuitBreaker {
    pub state: CircuitState,
    pub failure_count: u32,
    pub success_count: u32,
    pub half_open_calls: u32,
    pub last_failure_time: Option<u64>,
    pub last_state_change: u64,
    pub config: CircuitBreakerConfig,
    pub name: String,
}

/// The breaker's internal invariant: a usable tuning, a half-open probe
/// count within its limit and a recovery count still short of closing,
/// and a failure time recorded whenever the breaker is open.
pub open spec fn breaker_wf(b: CircuitBreaker) -> bool {
    &&& config_wf(b.config)
    &&& b.half_open_calls <= b.config.half_open_max_calls
    &&& (b.state == CircuitState::HalfOpen ==> b.success_count < b.config.success_threshold)
    &&& (b.state == CircuitState::Open ==> b.last_failure_time is Some)
}

/// The lazy Open-to-HalfOpen transition: taken exactly when the breaker
/// is open and its dwell time has passed, resetting the recovery and
/// probe counters.
pub open spec fn check_transition_spec(b: CircuitBreaker, now: u64) -> CircuitBreaker {
    if b.state == CircuitState::Open && (match b.last_failure_time {
        Some(t) => now >= t && now - t >= b.config.open_duration_ms,
        None => false,
    }) {
        CircuitBreaker {
            state: CircuitState::HalfOpen,
            last_state_change: now,
            success_count: 0,
            half_open_calls: 0,
            ..b
        }
    } else {
        b
    }
}

/// What recording a success does: half-open, it advances the recovery
/// count and closes the breaker at the threshold; closed, it clears the
/// failure streak; open, nothing.
pub open spec fn on_success_spec(b: CircuitBreaker, now: u64) -> CircuitBreaker {
    match b.state {
        CircuitState::HalfOpen => {
            if b.success_count + 1 >= b.config.success_threshold {
                CircuitBreaker {
                    state: CircuitState::Closed,
                    success_count: (b.success_count + 1) as u32,
                    last_state_change: now,
                    failure_count: 0,
                    half_open_calls: 0,
                    ..b
                }
            } else {
                CircuitBreaker { success_count: (b.success_count + 1) as u32, ..b }
            }
        },
        CircuitState::Closed => CircuitBreaker { failure_count: 0, ..b },
        CircuitState::Open => b,
    }
}

/// What recording a failure does: the streak grows by one, and a breaker
/// not already open trips once the streak reaches the threshold,
/// stamping the failure time and resetting the recovery counters.
pub open spec fn on_failure_spec(b: CircuitBreaker, now: u64) -> CircuitBreaker {
    let bumped = CircuitBreaker { failure_count: (b.failure_count + 1) as u32, ..b };
    if b.failure_count + 1 >= b.config.failure_threshold && b.state != CircuitState::Open {
        CircuitBreaker {
            state: CircuitState::Open,
            last_failure_time: Some(now),
            last_state_change: now,
            success_count: 0,
            half_open_calls: 0,
            ..bumped
        }
    } else {
        bumped
    }
}

/// The breaker after `n` consecutive recorded successes.
pub open spec fn apply_successes(b: CircuitBreaker, n: nat, now: u64) -> CircuitBreaker
    decreases n,
{
    if n == 0 {
        b
    } else {
        apply_successes(on_success_spec(b, now), (n - 1) as nat, now)
    }
}

/// The breaker after `n` consecutive recorded failures.
pub open spec fn apply_failures(b: CircuitBreaker, n: nat, now: u64) -> CircuitBreaker
    decreases n,
{
    if n == 0 {
        b
    } else {
        apply_failures(on_failure_spec(b, now), (n - 1) as nat, now)
    }
}

/// Recovery, for any threshold: from half-open, exactly the remaining
/// number of consecutive successes closes the breaker and clears the
/// failure streak.
pub proof fn lemma_half_open_recovery(b: CircuitBreaker, now: u64)
    requires
        breaker_wf(b),
        b.state == CircuitState::HalfOpen,
    ensures
        apply_successes(
            b,
            (b.config.success_threshold - b.success_count) as nat,
            now,
        ).state == CircuitState::Closed,
        apply_successes(
            b,
            (b.config.success_threshold - b.success_count) as nat,
            now,
        ).failure_count == 0,
    decreases b.config.success_threshold - b.success_count,
{
    let b1 = on_success_spec(b, now);
    if b.success_count + 1 >= b.config.success_threshold {
        assert(apply_successes(b1, 0, now) == b1);
    } else {
        assert(breaker_wf(b1) && b1.state == CircuitState::HalfOpen);
        lemma_half_open_recovery(b1, now);
    }
}

/// Tripping, for any threshold: from closed, exactly the remaining number
/// of consecutive failures opens the breaker.
pub proof fn lemma_failure_streak_opens(b: CircuitBreaker, now: u64)
    requires
        breaker_wf(b),
        b.state == CircuitState::Closed,
        b.failure_count < b.config.failure_threshold,
    ensures
        apply_failures(
            b,
            (b.config.failure_threshold - b.failure_count) as nat,
            now,
        ).state == CircuitState::Open,
    decreases b.config.failure_threshold - b.failure_count,
{
    let b1 = on_failure_spec(b, now);
    if b.failure_count + 1 >= b.config.failure_threshold {
        assert(apply_failures(b1, 0, now) == b1);
    } else {
        assert(breaker_wf(b1) && b1.state == CircuitState::Closed);
        lemma_failure_streak_opens(b1, now);
    }
}

/// A snapshot of the breaker for the metrics endpoint.
pub struct CircuitBreakerMetrics {
    pub name: String,
    pub state: CircuitState,
    pub failure_count: u32,
    pub success_count: u32,
    pub last_failure_time: Option<u64>,
    pub time_in_current_state_ms: u64,
}

impl CircuitBreaker {
    /// A breaker under the standard tuning.
    pub fn new(name: String) -> (r: CircuitBreaker)
        ensures
            breaker_wf(r),
            r.state == CircuitState::Closed,
            r.failure_count == 0,
            r.success_count == 0,
            r.half_open_calls == 0,
            r.name == name,
            r.config.failure_threshold == 5,
            r.config.success_threshold == 3,
            r.config.open_duration_ms == 30000,
            r.config.half_open_max_calls == 3,
    {
        CircuitBreaker::with_config(name, CircuitBreakerConfig::default())
    }

    /// A breaker under the given tuning.
    pub fn with_config(name: String, config: CircuitBreakerConfig) -> (r: CircuitBreaker)
        requires
            config_wf(config),
        ensures
            breaker_wf(r),
            r.state == CircuitState::Closed,
            r.failure_count == 0,
            r.success_count == 0,
            r.half_open_calls == 0,
            r.last_failure_time is None,
            r.last_state_change == 0,
            r.config == config,
            r.name == name,
    {
        CircuitBreaker {
            state: CircuitState::Closed,
            failure_count: 0,
            success_count: 0,
            half_open_calls: 0,
            last_failure_time: None,
            last_state_change: 0,
            config,
            name,
        }
    }

    /// Takes the lazy Open-to-HalfOpen transition when the dwell time has
    /// passed.
    pub fn check_and_transition_state(&mut self, now: u64)
        requires
            breaker_wf(*old(self)),
        ensures
            breaker_wf(*final(self)),
            *final(self) == check_transition_spec(*old(self), now),
    {
        if self.state == CircuitState::Open {
            let transition = match self.last_failure_time {
                Some(t) => now >= t && now - t >= self.config.open_duration_ms,
                None => false,
            };
            if transition {
                self.state = CircuitState::HalfOpen;
                self.last_state_change = now;
                self.success_count = 0;
                self.half_open_calls = 0;
            }
        }
    }

    /// Lets one call through or refuses it: refused while open, or when
    /// the half-open probe limit is taken; a half-open acceptance takes
    /// one probe slot. The decision follows the state after the lazy
    /// transition at `now`.
    pub fn try_acquire(&mut self, now: u64) -> (r: Result<(), CircuitError<AppError>>)
        requires
            breaker_wf(*old(self)),
        ensures
            breaker_wf(*final(self)),
            ({
                let mid = check_transition_spec(*old(self), now);
                match r {
                    Err(CircuitError::Open) => mid.state == CircuitState::Open && *final(self)
                        == mid,
                    Err(CircuitError::HalfOpenLimit) => mid.state == CircuitState::HalfOpen
                        && mid.half_open_calls >= mid.config.half_open_max_calls && *final(self)
                        == mid,
                    Err(CircuitError::Underlying(_)) => false,
                    Ok(()) => (mid.state == CircuitState::Closed && *final(self) == mid) || (
                    mid.state == CircuitState::HalfOpen && mid.half_open_calls
                        < mid.config.half_open_max_calls && *final(self) == (CircuitBreaker {
                        half_open_calls: (mid.half_open_calls + 1) as u32,
                        ..mid
                    })),
                }
            }),
    {
        self.check_and_transition_state(now);
        match self.state {
            CircuitState::Open => Err(CircuitError::Open),
            CircuitState::HalfOpen => {
                if self.half_open_calls >= self.config.half_open_max_calls {
                    Err(CircuitError::HalfOpenLimit)
                } else {
                    self.half_open_calls = self.half_open_calls + 1;
                    Ok(())
                }
            },
            CircuitState::Closed => Ok(()),
        }
    }

    /// Records a successful call.
    pub fn on_success(&mut self, now: u64)
        requires
            breaker_wf(*old(self)),
        ensures
            breaker_wf(*final(self)),
            *final(self) == on_success_spec(*old(self), now),
    {
        match self.state {
            CircuitState::HalfOpen => {
                self.success_count = self.success_count + 1;
                if self.success_count >= self.config.success_threshold {
                    self.state = CircuitState::Closed;
                    self.last_state_change = now;
                    self.failure_count = 0;
                    self.half_open_calls = 0;
                }
            },
            CircuitState::Closed => {
                self.failure_count = 0;
            },
            CircuitState::Open => {},
        }
    }

    /// Records a failed call.
    pub fn on_failure(&mut self, now: u64)
        requires
            breaker_wf(*old(self)),
            old(self).failure_count < u32::MAX,
        ensures
            breaker_wf(*final(self)),
            *final(self) == on_failure_spec(*old(self), now),
    {
        self.failure_count = self.failure_count + 1;
        if self.failure_count >= self.config.failure_threshold && !(self.state
            == CircuitState::Open) {
            self.state = CircuitState::Open;
            self.last_failure_time = Some(now);
            self.last_state_change = now;
            self.success_count = 0;
            self.half_open_calls = 0;
        }
    }

    /// The current state.
    pub fn state(&self) -> (r: CircuitState)
        ensures
            r == self.state,
    {
        self.state
    }

    /// A snapshot of the counters for the metrics endpoint.
    pub fn metrics(&self, now: u64) -> (r: CircuitBreakerMetrics)
        ensures
            r.name == self.name,
            r.state == self.state,
            r.failure_count == self.failure_count,
            r.success_count == self.success_count,
            r.last_failure_time == self.last_failure_time,
            r.time_in_current_state_ms == (if now >= self.last_state_change {
                (now - self.last_state_change) as u64
            } else {
                0u64
            }),
    {
        CircuitBreakerMetrics {
            name: self.name.clone(),
            state: self.state,
            failure_count: self.failure_count,
            success_count: self.success_count,
            last_failure_time: self.last_failure_time,
            time_in_current_state_ms: if now >= self.last_state_change {
                now - self.last_state_change
            } else {
                0
            },
        }
    }
}

} // verus!
