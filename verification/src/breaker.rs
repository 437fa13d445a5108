//! Circuit breaker: a three-state failure guard around fallible external
//! calls.
//!
//! The observable behaviour is pinned by the spec transition function
//! [`cb_step`]: every mutating method ensures that the new abstract state is
//! exactly `cb_step` of the old one, so any sequence of success / failure /
//! probe events drives the breaker through the documented state machine and
//! nothing else.

use vstd::prelude::*;

verus! {

/// The three breaker states.
#[derive(Clone, Copy, PartialEq, Eq, Structural, Debug)]
pub enum BreakerState {
    /// Calls pass; failures are counted.
    Closed,
    /// Calls are rejected until the recovery timeout has elapsed.
    Open,
    /// Trial period: calls pass; one failure reopens, two successes close.
    HalfOpen,
}

/// Abstract state of a breaker: the breaker state, both counters, the moment of
/// the last opening, and the fixed configuration.
pub struct CbModel {
    pub state: BreakerState,
    pub failures: nat,
    pub successes: nat,
    pub last_failure_ms: nat,
    pub failure_threshold: nat,
    pub success_threshold: nat,
    pub recovery_timeout_ms: nat,
}

/// Events the breaker reacts to.
pub enum CbEvent {
    /// A guarded call succeeded.
    Success,
    /// A guarded call failed at time `now_ms`.
    Failure { now_ms: nat },
    /// The breaker was consulted at time `now_ms` (this is what `is_open` does;
    /// it may move an expired `Open` to `HalfOpen`).
    Probe { now_ms: nat },
    /// Explicit reset to the initial closed state.
    Reset,
}

/// Whether an open breaker's recovery timeout has elapsed at `now_ms`.
pub open spec fn cb_recovered(m: CbModel, now_ms: nat) -> bool {
    now_ms >= m.last_failure_ms + m.recovery_timeout_ms
}

/// The transition function of the state machine. Total: defined for every
/// model and every event.
pub open spec fn cb_step(m: CbModel, e: CbEvent) -> CbModel {
    match e {
        CbEvent::Success => match m.state {
            BreakerState::Closed => CbModel { failures: 0, ..m },
            BreakerState::Open => m,
            BreakerState::HalfOpen => {
                if m.successes + 1 >= m.success_threshold {
                    CbModel { state: BreakerState::Closed, failures: 0, successes: 0, ..m }
                } else {
                    CbModel { successes: m.successes + 1, ..m }
                }
            },
        },
        CbEvent::Failure { now_ms } => match m.state {
            BreakerState::Closed => {
                if m.failures + 1 >= m.failure_threshold {
                    CbModel {
                        state: BreakerState::Open,
                        failures: 0,
                        successes: 0,
                        last_failure_ms: now_ms,
                        ..m
                    }
                } else {
                    CbModel { failures: m.failures + 1, ..m }
                }
            },
            BreakerState::Open => m,
            BreakerState::HalfOpen => CbModel {
                state: BreakerState::Open,
                failures: 0,
                successes: 0,
                last_failure_ms: now_ms,
                ..m
            },
        },
        CbEvent::Probe { now_ms } => {
            if m.state == BreakerState::Open && cb_recovered(m, now_ms) {
                CbModel { state: BreakerState::HalfOpen, successes: 0, ..m }
            } else {
                m
            }
        },
        CbEvent::Reset => CbModel {
            state: BreakerState::Closed,
            failures: 0,
            successes: 0,
            last_failure_ms: 0,
            ..m
        },
    }
}

/// Whether a call is allowed in model `m` at time `now_ms`: everything but a
/// still-cooling `Open` lets the call through.
pub open spec fn cb_allows(m: CbModel, now_ms: nat) -> bool {
    match m.state {
        BreakerState::Closed => true,
        BreakerState::Open => cb_recovered(m, now_ms),
        BreakerState::HalfOpen => true,
    }
}

/// Models that the concrete breaker can be in: counters stay below their
/// thresholds so increments never overflow, and the configuration is the one
/// the breaker was built with.
pub open spec fn cb_wf(m: CbModel) -> bool {
    &&& m.failure_threshold < 0xffff_ffff
    &&& m.success_threshold == 2
    &&& m.failures < 0xffff_ffff
    &&& m.successes < 0xffff_ffff
    &&& (m.state == BreakerState::Closed ==> m.failures <= m.failure_threshold)
    &&& (m.state == BreakerState::HalfOpen ==> m.successes < m.success_threshold)
    &&& (m.state != BreakerState::Closed ==> m.failures == 0)
}

/// The state machine preserves well-formedness under every event: the
/// transitions of the breaker are total.
pub proof fn lemma_cb_step_preserves_wf(m: CbModel, e: CbEvent)
    requires
        cb_wf(m),
    ensures
        cb_wf(cb_step(m, e)),
{
}

/// Circuit breaker guarding one external resource.
///
/// All time-dependent decisions take the current time in milliseconds as an
/// argument; the breaker holds no clock of its own.
pub struct CircuitBreaker {
    name: String,
    state: BreakerState,
    failure_count: u32,
    success_count: u32,
    failure_threshold: u32,
    success_threshold: u32,
    recovery_timeout_ms: u64,
    last_failure_ms: u64,
}

impl View for CircuitBreaker {
    type V = CbModel;

    closed spec fn view(&self) -> CbModel {
        CbModel {
            state: self.state,
            failures: self.failure_count as nat,
            successes: self.success_count as nat,
            last_failure_ms: self.last_failure_ms as nat,
            failure_threshold: self.failure_threshold as nat,
            success_threshold: self.success_threshold as nat,
            recovery_timeout_ms: self.recovery_timeout_ms as nat,
        }
    }
}

impl CircuitBreaker {
    /// The identifier this breaker was created with.
    pub closed spec fn spec_name(&self) -> Seq<char> {
        self.name@
    }

    /// Create a closed breaker. `failure_threshold` consecutive failures open
    /// it; it stays open for `recovery_timeout_ms` milliseconds.
    pub fn new(name: &str, failure_threshold: u32, recovery_timeout_ms: u64) -> (r: Self)
        requires
            failure_threshold < 0xffff_ffff,
        ensures
            cb_wf(r@),
            r@.state == BreakerState::Closed,
            r@.failures == 0,
            r@.successes == 0,
            r@.failure_threshold == failure_threshold as nat,
            r@.recovery_timeout_ms == recovery_timeout_ms as nat,
            r@.success_threshold == 2,
            r@.last_failure_ms == 0,
            r.spec_name() == name@,
    {
        CircuitBreaker {
            name: name.to_owned(),
            state: BreakerState::Closed,
            failure_count: 0,
            success_count: 0,
            failure_threshold,
            success_threshold: 2,
            recovery_timeout_ms,
            last_failure_ms: 0,
        }
    }

    /// Check whether requests must be rejected at time `now_ms`.
    ///
    /// Returns `true` exactly when the breaker is open and still cooling. An
    /// open breaker whose recovery timeout has elapsed moves to half-open and
    /// lets the request through.
    pub fn is_open(&mut self, now_ms: u64) -> (open: bool)
        requires
            cb_wf(old(self)@),
        ensures
            cb_wf(final(self)@),
            final(self)@ == cb_step(old(self)@, CbEvent::Probe { now_ms: now_ms as nat }),
            open == !cb_allows(old(self)@, now_ms as nat),
            final(self).spec_name() == old(self).spec_name(),
    {
        match self.state {
            BreakerState::Closed => false,
            BreakerState::Open => {
                if now_ms >= self.last_failure_ms
                    && now_ms - self.last_failure_ms >= self.recovery_timeout_ms {
                    self.state = BreakerState::HalfOpen;
                    self.success_count = 0;
                    false
                } else {
                    true
                }
            },
            BreakerState::HalfOpen => false,
        }
    }

    /// Record a successful operation: in `HalfOpen` this counts toward
    /// closing (two successes close the breaker); in `Closed` it clears the
    /// failure count.
    pub fn record_success(&mut self)
        requires
            cb_wf(old(self)@),
        ensures
            cb_wf(final(self)@),
            final(self)@ == cb_step(old(self)@, CbEvent::Success),
            final(self).spec_name() == old(self).spec_name(),
    {
        match self.state {
            BreakerState::HalfOpen => {
                let count = self.success_count + 1;
                self.success_count = count;
                if count >= self.success_threshold {
                    self.state = BreakerState::Closed;
                    self.failure_count = 0;
                    self.success_count = 0;
                }
            },
            BreakerState::Closed => {
                self.failure_count = 0;
            },
            BreakerState::Open => {},
        }
    }

    /// Record a failed operation at time `now_ms`: in `Closed` this counts
    /// toward the threshold and opens the breaker when reached; in `HalfOpen` it
    /// reopens the breaker immediately.
    pub fn record_failure(&mut self, now_ms: u64)
        requires
            cb_wf(old(self)@),
        ensures
            cb_wf(final(self)@),
            final(self)@ == cb_step(old(self)@, CbEvent::Failure { now_ms: now_ms as nat }),
            final(self).spec_name() == old(self).spec_name(),
    {
        match self.state {
            BreakerState::Closed => {
                let count = self.failure_count + 1;
                if count >= self.failure_threshold {
                    self.open_circuit(now_ms);
                } else {
                    self.failure_count = count;
                }
            },
            BreakerState::HalfOpen => {
                self.open_circuit(now_ms);
            },
            BreakerState::Open => {},
        }
    }

    /// Open the breaker at time `now_ms`, clearing both counters.
    fn open_circuit(&mut self, now_ms: u64)
        ensures
            final(self)@ == (CbModel {
                state: BreakerState::Open,
                failures: 0,
                successes: 0,
                last_failure_ms: now_ms as nat,
                ..old(self)@
            }),
            final(self).spec_name() == old(self).spec_name(),
    {
        self.state = BreakerState::Open;
        self.failure_count = 0;
        self.success_count = 0;
        self.last_failure_ms = now_ms;
    }

    /// The current breaker state, for diagnostics and metrics.
    pub fn state_name(&self) -> (r: &'static str)
        ensures
            self@.state == BreakerState::Closed ==> r@ == "closed"@,
            self@.state == BreakerState::Open ==> r@ == "open"@,
            self@.state == BreakerState::HalfOpen ==> r@ == "half_open"@,
    {
        match self.state {
            BreakerState::Closed => "closed",
            BreakerState::Open => "open",
            BreakerState::HalfOpen => "half_open",
        }
    }

    /// The current count of consecutive failures.
    pub fn failure_count(&self) -> (r: u32)
        ensures
            r as nat == self@.failures,
    {
        self.failure_count
    }

    /// Return the breaker to its initial closed state.
    pub fn reset(&mut self)
        requires
            cb_wf(old(self)@),
        ensures
            cb_wf(final(self)@),
            final(self)@ == cb_step(old(self)@, CbEvent::Reset),
            final(self).spec_name() == old(self).spec_name(),
    {
        self.state = BreakerState::Closed;
        self.failure_count = 0;
        self.success_count = 0;
        self.last_failure_ms = 0;
    }
}

} // verus!
