//! Execution limits: the safety envelope around script runs.
//!
//! Four guards protect the engine from runaway scripts: an execution-time
//! budget, a per-run action quota, a call-depth bound for nested script
//! calls, and a per-minute rate limit per script. All of them are plain
//! functions of the values passed in; the current time always arrives as an
//! argument.

use vstd::prelude::*;

use crate::text::str_eq;

verus! {

/// Execution limits for scripts. Times are in milliseconds.
#[derive(Clone, Copy, PartialEq, Eq, Structural, Debug)]
pub struct ScriptLimits {
    /// Budget for one script run.
    pub max_execution_time_ms: u64,
    /// Maximum actions per single script execution.
    pub max_actions_per_run: u64,
    /// Maximum call depth for nested script calls.
    pub max_call_depth: u64,
    /// Longest delay a `delay` action may request.
    pub max_delay_ms: u64,
    /// Maximum accepted executions per script per minute.
    pub rate_limit_per_minute: u64,
}

impl Default for ScriptLimits {
    /// The standard limits: 30 s budget, 50 actions, depth 5, 60 s delay
    /// cap, 60 runs per minute.
    fn default() -> (r: Self)
        ensures
            r == ScriptLimits::spec_default(),
    {
        ScriptLimits {
            max_execution_time_ms: 30_000,
            max_actions_per_run: 50,
            max_call_depth: 5,
            max_delay_ms: 60_000,
            rate_limit_per_minute: 60,
        }
    }
}

impl ScriptLimits {
    /// The standard limits.
    pub open spec fn spec_default() -> ScriptLimits {
        ScriptLimits {
            max_execution_time_ms: 30_000,
            max_actions_per_run: 50,
            max_call_depth: 5,
            max_delay_ms: 60_000,
            rate_limit_per_minute: 60,
        }
    }

    /// Tight limits for a script that fires often.
    pub fn high_frequency() -> (r: Self)
        ensures
            r == (ScriptLimits {
                max_execution_time_ms: 5_000,
                max_actions_per_run: 10,
                max_call_depth: 2,
                max_delay_ms: 5_000,
                rate_limit_per_minute: 120,
            }),
    {
        ScriptLimits {
            max_execution_time_ms: 5_000,
            max_actions_per_run: 10,
            max_call_depth: 2,
            max_delay_ms: 5_000,
            rate_limit_per_minute: 120,
        }
    }

    /// Generous limits for a script that fires rarely.
    pub fn low_frequency() -> (r: Self)
        ensures
            r == (ScriptLimits {
                max_execution_time_ms: 60_000,
                max_actions_per_run: 100,
                max_call_depth: 10,
                max_delay_ms: 300_000,
                rate_limit_per_minute: 10,
            }),
    {
        ScriptLimits {
            max_execution_time_ms: 60_000,
            max_actions_per_run: 100,
            max_call_depth: 10,
            max_delay_ms: 300_000,
            rate_limit_per_minute: 10,
        }
    }
}

/// A limit violation.
#[derive(Clone, Copy, PartialEq, Eq, Structural, Debug)]
pub enum LimitError {
    /// Execution time budget spent.
    TimeExceeded,
    /// Per-run action quota spent.
    ActionLimitExceeded,
    /// Nested call depth bound reached.
    CallDepthExceeded,
    /// Per-minute rate limit reached.
    RateLimitExceeded,
    /// A `delay` action asked for more than the cap.
    DelayTooLong,
}

impl LimitError {
    /// The wording of this violation.
    pub fn message(&self) -> (r: String)
        ensures
            *self == LimitError::TimeExceeded ==> r@ == "Execution time limit exceeded"@,
            *self == LimitError::ActionLimitExceeded ==> r@ == "Action limit exceeded"@,
            *self == LimitError::CallDepthExceeded ==> r@ == "Call depth limit exceeded"@,
            *self == LimitError::RateLimitExceeded ==> r@ == "Rate limit exceeded"@,
            *self == LimitError::DelayTooLong ==> r@ == "Delay exceeds maximum allowed"@,
    {
        match self {
            LimitError::TimeExceeded => "Execution time limit exceeded".to_owned(),
            LimitError::ActionLimitExceeded => "Action limit exceeded".to_owned(),
            LimitError::CallDepthExceeded => "Call depth limit exceeded".to_owned(),
            LimitError::RateLimitExceeded => "Rate limit exceeded".to_owned(),
            LimitError::DelayTooLong => "Delay exceeds maximum allowed".to_owned(),
        }
    }
}

// ---------------------------------------------------------------------------
// Rate limiter.
// ---------------------------------------------------------------------------

/// One script's rolling window: how many checks since the window opened.
struct RateWindow {
    script_id: String,
    count: u64,
    window_start_ms: u64,
}

/// The abstract state of one window.
pub struct WindowV {
    pub count: nat,
    pub start_ms: nat,
}

/// Length of the rate window: one minute.
pub open spec fn rate_window_ms() -> nat {
    60_000
}

/// Per-script rate limiter: check-and-increment against a rolling one-minute
/// window.
pub struct ScriptRateLimiter {
    windows: Vec<RateWindow>,
    default_limit: u64,
}

/// No two windows belong to the same script.
spec fn windows_unique(s: Seq<RateWindow>) -> bool {
    forall|i: int, j: int| 0 <= i < j < s.len() ==> s[i].script_id@ != s[j].script_id@
}

impl ScriptRateLimiter {
    /// Some window exists for `script`.
    pub closed spec fn spec_has(&self, script: Seq<char>) -> bool {
        exists|i: int| 0 <= i < self.windows@.len() && self.windows@[i].script_id@ == script
    }

    /// The window for `script` (meaningful when `spec_has`).
    pub closed spec fn spec_window(&self, script: Seq<char>) -> WindowV {
        let i = choose|i: int|
            0 <= i < self.windows@.len() && self.windows@[i].script_id@ == script;
        WindowV {
            count: self.windows@[i].count as nat,
            start_ms: self.windows@[i].window_start_ms as nat,
        }
    }

    /// The limit this limiter enforces.
    pub closed spec fn spec_limit(&self) -> nat {
        self.default_limit as nat
    }

    /// Structural invariant: one window per script.
    pub closed spec fn wf(&self) -> bool {
        windows_unique(self.windows@)
    }

    proof fn lemma_at_witness(&self, script: Seq<char>, i: int)
        requires
            self.wf(),
            0 <= i < self.windows@.len(),
            self.windows@[i].script_id@ == script,
        ensures
            self.spec_has(script),
            self.spec_window(script) == (WindowV {
                count: self.windows@[i].count as nat,
                start_ms: self.windows@[i].window_start_ms as nat,
            }),
    {
        assert(self.spec_has(script));
        let j = choose|j: int|
            0 <= j < self.windows@.len() && self.windows@[j].script_id@ == script;
        if i < j {
            assert(self.windows@[i].script_id@ != self.windows@[j].script_id@);
        } else if j < i {
            assert(self.windows@[j].script_id@ != self.windows@[i].script_id@);
        }
    }

    /// A limiter that allows `default_limit` executions per script per
    /// minute.
    pub fn new(default_limit: u64) -> (r: Self)
        ensures
            r.wf(),
            r.spec_limit() == default_limit as nat,
            forall|s: Seq<char>| !r.spec_has(s),
    {
        ScriptRateLimiter { windows: Vec::new(), default_limit }
    }

    /// The index of the window for `script_id`, if one exists.
    fn find(&self, script_id: &str) -> (r: Option<usize>)
        requires
            self.wf(),
        ensures
            match r {
                Some(i) => i < self.windows@.len() && self.windows@[i as int].script_id@
                    == script_id@ && self.spec_has(script_id@) && self.spec_window(script_id@)
                    == (WindowV {
                    count: self.windows@[i as int].count as nat,
                    start_ms: self.windows@[i as int].window_start_ms as nat,
                }),
                None => !self.spec_has(script_id@),
            },
    {
        let n = self.windows.len();
        let mut i: usize = 0;
        while i < n
            invariant
                self.wf(),
                n == self.windows@.len(),
                i <= n,
                forall|k: int| 0 <= k < i ==> self.windows@[k].script_id@ != script_id@,
            decreases n - i,
        {
            if str_eq(self.windows[i].script_id.as_str(), script_id) {
                proof {
                    self.lemma_at_witness(script_id@, i as int);
                }
                return Some(i);
            }
            i = i + 1;
        }
        None
    }

    /// The window a check at `now_ms` works against: the stored one if it is
    /// still fresh, otherwise a fresh window opened at `now_ms` (also used
    /// when the script has no window yet).
    pub open spec fn spec_effective(&self, script: Seq<char>, now_ms: nat) -> WindowV {
        if self.spec_has(script) && now_ms < self.spec_window(script).start_ms
            + rate_window_ms() {
            self.spec_window(script)
        } else {
            WindowV { count: 0, start_ms: now_ms }
        }
    }

    /// Check whether `script_id` may execute now, and count the attempt.
    ///
    /// The attempt is accepted exactly when, in the effective window, fewer
    /// than `limit` attempts have been counted; the count then grows by one
    /// (accepted or not), so at most `limit` attempts are ever accepted in
    /// one window.
    pub fn check(&mut self, script_id: &str, now_ms: u64) -> (accepted: bool)
        requires
            old(self).wf(),
        ensures
            final(self).wf(),
            final(self).spec_limit() == old(self).spec_limit(),
            accepted == (old(self).spec_effective(script_id@, now_ms as nat).count < old(
                self,
            ).spec_limit()),
            final(self).spec_has(script_id@),
            final(self).spec_window(script_id@).start_ms == old(self).spec_effective(
                script_id@,
                now_ms as nat,
            ).start_ms,
            final(self).spec_window(script_id@).count == vstd::math::min(
                old(self).spec_effective(script_id@, now_ms as nat).count as int + 1,
                u64::MAX as int,
            ),
            forall|s: Seq<char>|
                s != script_id@ ==> #[trigger] final(self).spec_has(s) == old(self).spec_has(s),
            forall|s: Seq<char>|
                s != script_id@ && old(self).spec_has(s) ==> #[trigger] final(self).spec_window(s)
                    == old(self).spec_window(s),
    {
        let found = self.find(script_id);
        let (count0, start0): (u64, u64) = match found {
            Some(i) => {
                let w = &self.windows[i];
                if now_ms >= w.window_start_ms && now_ms - w.window_start_ms
                    >= 60_000 {
                    (0, now_ms)
                } else {
                    (w.count, w.window_start_ms)
                }
            },
            None => (0, now_ms),
        };
        let accepted = count0 < self.default_limit;
        let newcount: u64 = if count0 == u64::MAX {
            u64::MAX
        } else {
            count0 + 1
        };
        let neww = RateWindow {
            script_id: script_id.to_owned(),
            count: newcount,
            window_start_ms: start0,
        };
        match found {
            Some(i) => {
                let ghost olds = self.windows@;
                self.windows[i] = neww;
                proof {
                    assert(olds[i as int].script_id@ == script_id@);
                    assert forall|k: int|
                        0 <= k < self.windows@.len() implies self.windows@[k].script_id@
                        == olds[k].script_id@ by {}
                    self.lemma_at_witness(script_id@, i as int);
                    assert forall|s: Seq<char>| s != script_id@ implies #[trigger] self.spec_has(s)
                        == old(self).spec_has(s) by {
                        if old(self).spec_has(s) {
                            let k = choose|k: int|
                                0 <= k < olds.len() && olds[k].script_id@ == s;
                            assert(self.windows@[k].script_id@ == s);
                        }
                        if self.spec_has(s) {
                            let k = choose|k: int|
                                0 <= k < self.windows@.len() && self.windows@[k].script_id@ == s;
                            assert(olds[k].script_id@ == s);
                        }
                    }
                    assert forall|s: Seq<char>|
                        s != script_id@ && old(self).spec_has(s) implies #[trigger] self
                        .spec_window(s) == old(self).spec_window(s) by {
                        let k = choose|k: int| 0 <= k < olds.len() && olds[k].script_id@ == s;
                        self.lemma_at_witness(s, k);
                        old(self).lemma_at_witness(s, k);
                    }
                    old(self).lemma_at_witness(script_id@, i as int);
                }
            },
            None => {
                let ghost olds = self.windows@;
                self.windows.push(neww);
                proof {
                    let n = olds.len() as int;
                    assert forall|x: int, y: int|
                        0 <= x < y < self.windows@.len() implies self.windows@[x].script_id@
                        != self.windows@[y].script_id@ by {
                        if y < n {
                        } else {
                            if self.windows@[x].script_id@ == script_id@ {
                                assert(old(self).spec_has(script_id@));
                            }
                        }
                    }
                    self.lemma_at_witness(script_id@, n);
                    assert forall|s: Seq<char>| s != script_id@ implies #[trigger] self.spec_has(s)
                        == old(self).spec_has(s) by {
                        if old(self).spec_has(s) {
                            let k = choose|k: int|
                                0 <= k < olds.len() && olds[k].script_id@ == s;
                            assert(self.windows@[k].script_id@ == s);
                        }
                        if self.spec_has(s) {
                            let k = choose|k: int|
                                0 <= k < self.windows@.len() && self.windows@[k].script_id@ == s;
                            assert(k < n);
                            assert(olds[k].script_id@ == s);
                        }
                    }
                    assert forall|s: Seq<char>|
                        s != script_id@ && old(self).spec_has(s) implies #[trigger] self
                        .spec_window(s) == old(self).spec_window(s) by {
                        let k = choose|k: int| 0 <= k < olds.len() && olds[k].script_id@ == s;
                        self.lemma_at_witness(s, k);
                        old(self).lemma_at_witness(s, k);
                    }
                }
            },
        }
        accepted
    }

    /// How many attempts the current window of `script_id` has counted.
    pub fn current_rate(&self, script_id: &str) -> (r: u64)
        requires
            self.wf(),
        ensures
            r as nat == if self.spec_has(script_id@) {
                self.spec_window(script_id@).count
            } else {
                0
            },
    {
        match self.find(script_id) {
            Some(i) => self.windows[i].count,
            None => 0,
        }
    }

    /// Reopen the window of `script_id` at `now_ms` with a zero count (no
    /// effect if the script has no window).
    pub fn reset(&mut self, script_id: &str, now_ms: u64)
        requires
            old(self).wf(),
        ensures
            final(self).wf(),
            final(self).spec_limit() == old(self).spec_limit(),
            old(self).spec_has(script_id@) ==> final(self).spec_has(script_id@)
                && final(self).spec_window(script_id@) == (WindowV {
                count: 0,
                start_ms: now_ms as nat,
            }),
            !old(self).spec_has(script_id@) ==> *final(self) == *old(self),
            forall|s: Seq<char>|
                s != script_id@ ==> #[trigger] final(self).spec_has(s) == old(self).spec_has(s),
            forall|s: Seq<char>|
                s != script_id@ && old(self).spec_has(s) ==> #[trigger] final(self).spec_window(s)
                    == old(self).spec_window(s),
    {
        let found = self.find(script_id);
        match found {
            Some(i) => {
                let ghost olds = self.windows@;
                self.windows[i] = RateWindow {
                    script_id: script_id.to_owned(),
                    count: 0,
                    window_start_ms: now_ms,
                };
                proof {
                    assert(olds[i as int].script_id@ == script_id@);
                    assert forall|k: int|
                        0 <= k < self.windows@.len() implies self.windows@[k].script_id@
                        == olds[k].script_id@ by {}
                    self.lemma_at_witness(script_id@, i as int);
                    assert forall|s: Seq<char>| s != script_id@ implies #[trigger] self.spec_has(s)
                        == old(self).spec_has(s) by {
                        if old(self).spec_has(s) {
                            let k = choose|k: int|
                                0 <= k < olds.len() && olds[k].script_id@ == s;
                            assert(self.windows@[k].script_id@ == s);
                        }
                        if self.spec_has(s) {
                            let k = choose|k: int|
                                0 <= k < self.windows@.len() && self.windows@[k].script_id@ == s;
                            assert(olds[k].script_id@ == s);
                        }
                    }
                    assert forall|s: Seq<char>|
                        s != script_id@ && old(self).spec_has(s) implies #[trigger] self
                        .spec_window(s) == old(self).spec_window(s) by {
                        let k = choose|k: int| 0 <= k < olds.len() && olds[k].script_id@ == s;
                        self.lemma_at_witness(s, k);
                        old(self).lemma_at_witness(s, k);
                    }
                }
            },
            None => {},
        }
    }

    /// Drop every window.
    pub fn clear_all(&mut self)
        ensures
            final(self).wf(),
            final(self).spec_limit() == old(self).spec_limit(),
            forall|s: Seq<char>| !final(self).spec_has(s),
    {
        self.windows.clear();
    }
}

/// The number of accepted checks in a run of `n` consecutive checks on one
/// window, starting from count `c` against limit `limit`: each check is
/// accepted exactly when the count so far is below the limit, and each check
/// raises the count by one. This is the recurrence [`ScriptRateLimiter::check`]
/// implements while the window does not roll.
pub open spec fn rate_accepts(c: nat, limit: nat, n: nat) -> nat
    decreases n,
{
    if n == 0 {
        0
    } else {
        (if c < limit {
            1 as nat
        } else {
            0 as nat
        }) + rate_accepts(c + 1, limit, (n - 1) as nat)
    }
}

/// Rate bound: a fresh window accepts at most `limit` checks, no matter how
/// many are made. (Across a window roll the count restarts; the bound holds
/// per window.)
pub proof fn lemma_rate_bound(limit: nat, n: nat)
    ensures
        rate_accepts(0, limit, n) <= limit,
{
    lemma_rate_accepts_bound(0, limit, n);
}

/// Helper: the accepted count never exceeds `limit - c` when `c <= limit`,
/// and is zero when `c >= limit`.
pub proof fn lemma_rate_accepts_bound(c: nat, limit: nat, n: nat)
    ensures
        c >= limit ==> rate_accepts(c, limit, n) == 0,
        c < limit ==> rate_accepts(c, limit, n) <= limit - c,
    decreases n,
{
    if n == 0 {
    } else {
        lemma_rate_accepts_bound(c + 1, limit, (n - 1) as nat);
    }
}

// ---------------------------------------------------------------------------
// Execution context.
// ---------------------------------------------------------------------------

/// Per-invocation bookkeeping against the limits: when the run started, how
/// deep in nested calls it is, and how many actions it has recorded.
pub struct ExecutionContext {
    /// When this execution began (milliseconds).
    pub start_ms: u64,
    /// Current nesting depth of `call_script`.
    pub call_depth: u64,
    /// Actions recorded so far in this run.
    pub actions_executed: u64,
    /// The limits this execution runs under.
    pub limits: ScriptLimits,
}

impl ExecutionContext {
    /// A fresh context started at `now_ms` with depth and action count zero.
    pub fn new(limits: ScriptLimits, now_ms: u64) -> (r: Self)
        ensures
            r.start_ms == now_ms,
            r.call_depth == 0,
            r.actions_executed == 0,
            r.limits == limits,
    {
        ExecutionContext { start_ms: now_ms, call_depth: 0, actions_executed: 0, limits }
    }

    /// Whether the time budget is spent at `now_ms`.
    pub fn is_time_exceeded(&self, now_ms: u64) -> (r: bool)
        ensures
            r == (now_ms as int > self.start_ms as int
                + self.limits.max_execution_time_ms as int),
    {
        now_ms > self.start_ms && now_ms - self.start_ms > self.limits.max_execution_time_ms
    }

    /// Whether the action quota is spent.
    pub fn is_action_limit_exceeded(&self) -> (r: bool)
        ensures
            r == (self.actions_executed >= self.limits.max_actions_per_run),
    {
        self.actions_executed >= self.limits.max_actions_per_run
    }

    /// Whether the call depth bound is reached.
    pub fn is_depth_exceeded(&self) -> (r: bool)
        ensures
            r == (self.call_depth >= self.limits.max_call_depth),
    {
        self.call_depth >= self.limits.max_call_depth
    }

    /// Whether a delay of `delay_ms` is within the cap.
    pub fn is_delay_allowed(&self, delay_ms: u64) -> (r: bool)
        ensures
            r == (delay_ms <= self.limits.max_delay_ms),
    {
        delay_ms <= self.limits.max_delay_ms
    }

    /// Count one action at `now_ms`. Fails without counting when the time
    /// budget or the action quota is spent, so `actions_executed` never
    /// exceeds `max_actions_per_run`.
    pub fn record_action(&mut self, now_ms: u64) -> (r: Result<(), LimitError>)
        ensures
            final(self).start_ms == old(self).start_ms,
            final(self).call_depth == old(self).call_depth,
            final(self).limits == old(self).limits,
            r == if now_ms as int > old(self).start_ms as int
                + old(self).limits.max_execution_time_ms as int {
                Result::<(), LimitError>::Err(LimitError::TimeExceeded)
            } else if old(self).actions_executed >= old(self).limits.max_actions_per_run {
                Result::<(), LimitError>::Err(LimitError::ActionLimitExceeded)
            } else {
                Result::<(), LimitError>::Ok(())
            },
            final(self).actions_executed == if r is Ok {
                old(self).actions_executed + 1
            } else {
                old(self).actions_executed as int
            },
    {
        if self.is_time_exceeded(now_ms) {
            return Err(LimitError::TimeExceeded);
        }
        if self.is_action_limit_exceeded() {
            return Err(LimitError::ActionLimitExceeded);
        }
        self.actions_executed = self.actions_executed + 1;
        Ok(())
    }

    /// Enter a nested call. Fails without deepening when the bound is
    /// reached, so `call_depth` never exceeds `max_call_depth`.
    pub fn enter_nested(&mut self) -> (r: Result<(), LimitError>)
        ensures
            final(self).start_ms == old(self).start_ms,
            final(self).actions_executed == old(self).actions_executed,
            final(self).limits == old(self).limits,
            r == if old(self).call_depth >= old(self).limits.max_call_depth {
                Result::<(), LimitError>::Err(LimitError::CallDepthExceeded)
            } else {
                Result::<(), LimitError>::Ok(())
            },
            final(self).call_depth == if r is Ok {
                old(self).call_depth + 1
            } else {
                old(self).call_depth as int
            },
    {
        if self.is_depth_exceeded() {
            return Err(LimitError::CallDepthExceeded);
        }
        self.call_depth = self.call_depth + 1;
        Ok(())
    }

    /// Leave a nested call (no effect at depth zero).
    pub fn exit_nested(&mut self)
        ensures
            final(self).start_ms == old(self).start_ms,
            final(self).actions_executed == old(self).actions_executed,
            final(self).limits == old(self).limits,
            final(self).call_depth == if old(self).call_depth > 0 {
                old(self).call_depth - 1
            } else {
                0
            },
    {
        if self.call_depth > 0 {
            self.call_depth = self.call_depth - 1;
        }
    }

    /// The unspent part of the time budget at `now_ms` (zero when spent).
    pub fn remaining_time(&self, now_ms: u64) -> (r: u64)
        ensures
            r as int == vstd::math::max(
                0,
                self.limits.max_execution_time_ms as int - vstd::math::max(
                    0,
                    now_ms as int - self.start_ms as int,
                ),
            ),
    {
        if now_ms <= self.start_ms {
            return self.limits.max_execution_time_ms;
        }
        let elapsed = now_ms - self.start_ms;
        if elapsed >= self.limits.max_execution_time_ms {
            0
        } else {
            self.limits.max_execution_time_ms - elapsed
        }
    }
}

} // verus!
