//! The script execution engine: trigger-driven execution of declarative
//! scripts inside a safety envelope.
//!
//! One tick refreshes the context, asks the trigger manager which scripts
//! fire, and executes each fired script once. One execution evaluates the
//! script's conditions, then dispatches its actions in order, each guarded by
//! the execution limits and — for hardware writes — by the conflict
//! detector. Nested `call_script` actions recurse with an explicit depth
//! counter; an execution at or beyond `max_call_depth` returns a failure
//! without touching any state, which bounds every chain of nested frames.
//!
//! Time enters only as the `now_ms` argument. A `delay` action advances the
//! execution's simulated clock, which counts against the time budget.

use vstd::prelude::*;

use crate::conflict::{ConflictDetector, ConflictKind, ConflictResult};
use crate::context::ScriptContext;
use crate::hardware::{GpioActor, ModbusActor};
use crate::limits::{ExecutionContext, LimitError, ScriptLimits, ScriptRateLimiter};
use crate::model::{Action, ActionType, ActionV, Condition, ConditionV, ScriptDefinition};
use crate::storage::{ScriptStatus, ScriptStorage};
use crate::text::{chars_to_string, parse_pin, push_dec, push_str_chars, spec_dec};
use crate::triggers::TriggerManager;
use crate::value::{compare_values, spec_compare, Value};

verus! {

/// The RFC 3339 rendering of a UTC epoch timestamp in milliseconds.
pub uninterp spec fn rfc3339_of(epoch_ms: u64) -> Seq<char>;

/// Relies on chrono's `DateTime::<Utc>::from_timestamp_millis` and
/// `DateTime::to_rfc3339`: the rendering of a UTC timestamp is a function
/// of the epoch value alone (an out-of-range timestamp renders empty).
#[verifier::external_body]
fn rfc3339_string(epoch_ms: u64) -> (r: String)
    ensures
        r@ == rfc3339_of(epoch_ms),
{
    match chrono::DateTime::<chrono::Utc>::from_timestamp_millis(epoch_ms as i64) {
        Some(dt) => dt.to_rfc3339(),
        None => String::new(),
    }
}

/// An outbound MQTT publish request produced by `alert` and `publish_mqtt`
/// actions; the embedding application drains these to the broker.
pub struct OutboundMessage {
    pub topic: String,
    pub payload: String,
}

/// The outcome of one dispatched action.
#[derive(Debug)]
pub struct ActionResult {
    pub action_type: ActionType,
    pub success: bool,
    pub message: String,
}

impl ActionResult {
    /// A successful outcome.
    pub fn success_result(action_type: ActionType, message: String) -> (r: ActionResult)
        ensures
            r.action_type == action_type,
            r.success,
            r.message@ == message@,
    {
        ActionResult { action_type, success: true, message }
    }

    /// A failed outcome.
    pub fn failure_result(action_type: ActionType, message: String) -> (r: ActionResult)
        ensures
            r.action_type == action_type,
            !r.success,
            r.message@ == message@,
    {
        ActionResult { action_type, success: false, message }
    }
}

/// The aggregate outcome of one script execution.
#[derive(Debug)]
pub struct ExecutionResult {
    pub script_id: String,
    pub success: bool,
    pub actions_executed: u64,
    pub actions_failed: u64,
    pub results: Vec<ActionResult>,
    pub duration_ms: u64,
    pub timestamp: String,
}

/// The one transport-level error: everything else is reported in-band in
/// the execution result.
#[derive(Clone, Copy, PartialEq, Eq, Structural, Debug)]
pub enum EngineError {
    /// No script with the requested id exists.
    ScriptNotFound,
}

/// Whether a condition holds against a context: resolve the source path and
/// compare; a missing source makes the condition false, not an error.
pub open spec fn spec_condition_holds(ctx: &ScriptContext, c: ConditionV) -> bool {
    match ctx.spec_get_value(c.source) {
        Some(v) => spec_compare(v, c.operator, c.value),
        None => false,
    }
}

/// All conditions hold (conjunction; an empty list holds).
pub open spec fn spec_conditions_hold(ctx: &ScriptContext, cs: Seq<ConditionV>) -> bool {
    forall|k: int| 0 <= k < cs.len() ==> spec_condition_holds(ctx, #[trigger] cs[k])
}

/// The script execution engine: storage, trigger state, context, limits and
/// the hardware actors, driven tick by tick.
pub struct ScriptEngine {
    pub storage: ScriptStorage,
    pub trigger_manager: TriggerManager,
    pub context: ScriptContext,
    pub limits: ScriptLimits,
    pub rate_limiter: ScriptRateLimiter,
    pub conflict: ConflictDetector,
    pub gpio: GpioActor,
    pub modbus: ModbusActor,
    pub outbox: Vec<OutboundMessage>,
}

impl ScriptEngine {
    /// Structural invariant: every component well-formed.
    pub open spec fn wf(&self) -> bool {
        &&& self.storage.wf()
        &&& self.limits.max_actions_per_run < 0xffff_ffff_ffff_ffff
        &&& self.trigger_manager.wf()
        &&& self.context.wf()
        &&& self.rate_limiter.wf()
        &&& self.conflict.wf()
        &&& self.gpio.wf()
        &&& self.modbus.wf()
    }

    /// An engine with the standard limits and no scripts.
    pub fn new() -> (r: Self)
        ensures
            r.wf(),
            r.limits == ScriptLimits::spec_default(),
            r.storage.spec_len() == 0,
    {
        Self::with_limits(ScriptLimits::default())
    }

    /// An engine with the given limits and no scripts.
    pub fn with_limits(limits: ScriptLimits) -> (r: Self)
        requires
            limits.max_actions_per_run < 0xffff_ffff_ffff_ffff,
        ensures
            r.wf(),
            r.limits == limits,
            r.storage.spec_len() == 0,
    {
        ScriptEngine {
            storage: ScriptStorage::new(),
            trigger_manager: TriggerManager::new(),
            context: ScriptContext::new(),
            limits,
            rate_limiter: ScriptRateLimiter::new(limits.rate_limit_per_minute),
            conflict: ConflictDetector::new(),
            gpio: GpioActor::new(),
            modbus: ModbusActor::new(),
            outbox: Vec::new(),
        }
    }

    /// Evaluate one condition against the context.
    pub fn evaluate_condition(&self, c: &Condition) -> (r: bool)
        requires
            self.context.wf(),
        ensures
            r == spec_condition_holds(&self.context, c@),
    {
        let resolved = self.context.get_value(c.source.as_str());
        match resolved {
            Some(v) => compare_values(&v, &c.operator, &c.value),
            None => false,
        }
    }

    /// Evaluate a condition list as a conjunction (short-circuit).
    pub fn evaluate_conditions(&self, cs: &Vec<Condition>) -> (r: bool)
        requires
            self.context.wf(),
        ensures
            r == spec_conditions_hold(&self.context, cs@.map_values(|c: Condition| c@)),
    {
        let n = cs.len();
        let mut i: usize = 0;
        while i < n
            invariant
                self.context.wf(),
                n == cs@.len(),
                i <= n,
                forall|k: int|
                    0 <= k < i ==> spec_condition_holds(&self.context, (#[trigger] cs@[k])@),
            decreases n - i,
        {
            if !self.evaluate_condition(&cs[i]) {
                proof {
                    assert(!spec_condition_holds(
                        &self.context,
                        cs@.map_values(|c: Condition| c@)[i as int],
                    ));
                }
                return false;
            }
            i = i + 1;
        }
        true
    }
}

// ---------------------------------------------------------------------------
// The relational semantics of dispatch and execution.
//
// `spec_dispatch` pins the whole effect of dispatching one action;
// `spec_steps` chains it over an action list, gated by the time budget and
// the action quota exactly as the dispatch loop is; `spec_execute_rel` pins
// a whole execution, from the depth and rate guards through the action
// chain, the error handlers and the recorded outcome. The three are
// mutually recursive through `call_script`, bounded by the call depth.
// ---------------------------------------------------------------------------

/// Termination measure for the relations: recursion deepens only through
/// `call_script`, which raises `depth` toward `max`.
pub open spec fn depth_measure(max: u64, depth: u64) -> int {
    if depth <= max {
        max - depth + 1
    } else {
        0
    }
}

/// `r` is the failed outcome of kind `t` with message `msg`.
pub open spec fn spec_failed_as(r: ActionResult, t: ActionType, msg: Seq<char>) -> bool {
    !r.success && r.action_type == t && r.message@ == msg
}

/// `post` is `pre` with one message appended.
pub open spec fn spec_outbox_push(
    pre: Seq<OutboundMessage>,
    post: Seq<OutboundMessage>,
    topic: Seq<char>,
    payload: Seq<char>,
) -> bool {
    &&& post.len() == pre.len() + 1
    &&& post.drop_last() == pre
    &&& post.last().topic@ == topic
    &&& post.last().payload@ == payload
}

/// Whether the action's inline guard holds (an absent guard does).
pub open spec fn spec_guard_ok(ctx: &ScriptContext, a: ActionV) -> bool {
    match a.condition {
        Some(c) => spec_condition_holds(ctx, c),
        None => true,
    }
}

/// Saturating addition on the simulated clock.
pub open spec fn spec_sat_add(a: u64, b: u64) -> u64 {
    if a + b > u64::MAX {
        u64::MAX
    } else {
        (a + b) as u64
    }
}

/// Number of failed outcomes in a result list.
pub open spec fn count_failures(rs: Seq<ActionResult>) -> int
    decreases rs.len(),
{
    if rs.len() == 0 {
        0
    } else {
        count_failures(rs.drop_last()) + if rs.last().success {
            0int
        } else {
            1int
        }
    }
}

/// Number of successful outcomes in a result list.
pub open spec fn count_successes(rs: Seq<ActionResult>) -> int
    decreases rs.len(),
{
    if rs.len() == 0 {
        0
    } else {
        count_successes(rs.drop_last()) + if rs.last().success {
            1int
        } else {
            0int
        }
    }
}

/// "Set GPIO P to HIGH/LOW".
pub open spec fn spec_gpio_ok_msg(pin: u8, v: bool) -> Seq<char> {
    "Set GPIO "@ + spec_dec(pin as nat) + (if v {
        " to HIGH"@
    } else {
        " to LOW"@
    })
}

/// "Wrote V to D:A" (register form).
pub open spec fn spec_reg_ok_msg(v: u16, d: Seq<char>, a: u16) -> Seq<char> {
    "Wrote "@ + spec_dec(v as nat) + " to "@ + d + ":"@ + spec_dec(a as nat)
}

/// "Wrote true/false to D:A" (coil form).
pub open spec fn spec_coil_ok_msg(v: bool, d: Seq<char>, a: u16) -> Seq<char> {
    "Wrote "@ + crate::conflict::spec_bool_chars(v) + " to "@ + d + ":"@ + spec_dec(a as nat)
}

/// "Delay Nms exceeds maximum allowed (Mms)".
pub open spec fn spec_delay_msg(dm: u64, maxd: u64) -> Seq<char> {
    "Delay "@ + spec_dec(dm as nat) + "ms exceeds maximum allowed ("@ + spec_dec(maxd as nat)
        + "ms)"@
}

/// The common frame, guard-skip, GPIO and register-write clauses of one
/// dispatch (first half of [`spec_dispatch`]).
pub open spec fn spec_dispatch_core(
    pre: ScriptEngine,
    post: ScriptEngine,
    script: Seq<char>,
    a: ActionV,
    depth: u64,
    now0: u64,
    now1: u64,
    r: ActionResult,
    max: u64,
) -> bool {
    &&& post.wf()
    &&& post.limits == pre.limits
    &&& now1 >= now0
    &&& (forall|x: Seq<char>|
        #[trigger] post.storage.spec_has(x) == pre.storage.spec_has(x))
    &&& (forall|x: Seq<char>|
        pre.storage.spec_has(x) ==> (#[trigger] post.storage.spec_at(x)).definition
            == pre.storage.spec_at(x).definition)
    &&& (forall|x: Seq<char>|
        pre.storage.spec_has(x) && (#[trigger] pre.storage.spec_at(x)).status
            != ScriptStatus::Paused ==> post.storage.spec_at(x).status != ScriptStatus::Paused)
    // Frames: only the named kinds reach each component.
    &&& (a.action_type != ActionType::CallScript ==> post.storage == pre.storage
        && post.trigger_manager == pre.trigger_manager && post.rate_limiter == pre.rate_limiter)
    &&& (a.action_type != ActionType::CallScript && a.action_type != ActionType::SetGpio
        ==> post.gpio == pre.gpio)
    &&& (a.action_type != ActionType::CallScript && a.action_type != ActionType::WriteModbus
        && a.action_type != ActionType::WriteCoil ==> post.modbus == pre.modbus)
    &&& (a.action_type != ActionType::CallScript && a.action_type != ActionType::SetGpio
        && a.action_type != ActionType::WriteModbus && a.action_type != ActionType::WriteCoil
        ==> post.conflict == pre.conflict)
    &&& (a.action_type != ActionType::CallScript && a.action_type != ActionType::SetVariable
        ==> post.context == pre.context)
    &&& (a.action_type != ActionType::CallScript && a.action_type != ActionType::Alert
        && a.action_type != ActionType::PublishMqtt ==> post.outbox == pre.outbox)
    &&& (a.action_type != ActionType::Delay ==> now1 == now0)
    // A false inline guard skips the action as a success, touching nothing.
    &&& ((match a.condition {
        Some(c) => !spec_condition_holds(&pre.context, c),
        None => false,
    }) ==> r.success && r.action_type == ActionType::Noop && r.message@
        == "Condition not met - skipped"@ && post == pre && now1 == now0)
    &&& (a.action_type == ActionType::SetGpio && spec_guard_ok(&pre.context, a) ==> (match (
        crate::text::spec_parse_pin(a.target),
        a.value,
    ) {
        (Some(p), Some(crate::value::ValueV::Bool(v))) => {
            let verdict = crate::conflict::spec_verdict(
                pre.conflict.spec_gpio(p),
                script,
                crate::conflict::WriteValue::Bool(v),
            );
            &&& r.action_type == ActionType::SetGpio
            &&& post.conflict.spec_gpio(p) == (if verdict == ConflictKind::KindDuplicate {
                pre.conflict.spec_gpio(p)
            } else {
                Some(
                    crate::conflict::PendingV {
                        script,
                        value: crate::conflict::WriteValue::Bool(v),
                    },
                )
            })
            &&& (forall|p2: u8|
                p2 != p ==> #[trigger] post.conflict.spec_gpio(p2) == pre.conflict.spec_gpio(p2))
            &&& (forall|d2: Seq<char>, a2: u16|
                #[trigger] post.conflict.spec_modbus(d2, a2) == pre.conflict.spec_modbus(d2, a2))
            &&& (forall|d2: Seq<char>, a2: u16|
                #[trigger] post.conflict.spec_coil(d2, a2) == pre.conflict.spec_coil(d2, a2))
            &&& (verdict == ConflictKind::KindDuplicate ==> r.success && post.gpio == pre.gpio
                && r.message@ == "Duplicate write suppressed"@)
            &&& (verdict != ConflictKind::KindDuplicate && pre.gpio.spec_has(p) ==> r.success
                && post.gpio.spec_has(p) && post.gpio.spec_level(p) == v && (forall|q: u8|
                q != p ==> #[trigger] post.gpio.spec_has(q) == pre.gpio.spec_has(q)) && (forall|
                q: u8,
            |
                q != p && pre.gpio.spec_has(q) ==> #[trigger] post.gpio.spec_level(q)
                    == pre.gpio.spec_level(q)) && (verdict == ConflictKind::KindNoConflict
                ==> r.message@ == spec_gpio_ok_msg(p, v)) && (verdict
                == ConflictKind::KindConflict ==> (pre.conflict.spec_gpio(p) matches Some(pw)
                && r.message@ == spec_gpio_ok_msg(p, v) + " ("@
                + crate::conflict::spec_gpio_conflict_msg(
                    p,
                    script,
                    v,
                    pw.script,
                    pw.value == crate::conflict::WriteValue::Bool(true),
                ) + ")"@)))
            &&& (verdict != ConflictKind::KindDuplicate && !pre.gpio.spec_has(p)
                ==> spec_failed_as(r, ActionType::SetGpio, "Failed: GPIO pin not configured"@)
                && post.gpio == pre.gpio)
        },
        (None, _) => spec_failed_as(r, ActionType::SetGpio, "Invalid pin number"@) && post == pre,
        _ => spec_failed_as(r, ActionType::SetGpio, "Missing or invalid value"@) && post == pre,
    }))
    &&& (a.action_type == ActionType::WriteModbus && spec_guard_ok(&pre.context, a) ==> (match (
        a.device,
        a.address,
    ) {
        (None, _) => spec_failed_as(r, ActionType::WriteModbus, "Missing device name"@) && post
            == pre,
        (Some(_), None) => spec_failed_as(r, ActionType::WriteModbus, "Missing register address"@)
            && post == pre,
        (Some(d), Some(ad)) => match a.value {
            Some(crate::value::ValueV::Num(m)) => {
                if m >= 0 && m % 1000 == 0 && m / 1000 <= 0xffff {
                    let v16 = ((m / 1000) as u16);
                    let verdict = crate::conflict::spec_verdict(
                        pre.conflict.spec_modbus(d, ad),
                        script,
                        crate::conflict::WriteValue::U16(v16),
                    );
                    &&& r.action_type == ActionType::WriteModbus
                    &&& post.conflict.spec_modbus(d, ad) == (if verdict
                        == ConflictKind::KindDuplicate {
                        pre.conflict.spec_modbus(d, ad)
                    } else {
                        Some(
                            crate::conflict::PendingV {
                                script,
                                value: crate::conflict::WriteValue::U16(v16),
                            },
                        )
                    })
                    &&& (forall|d2: Seq<char>, a2: u16|
                        !(d2 == d && a2 == ad) ==> #[trigger] post.conflict.spec_modbus(d2, a2)
                            == pre.conflict.spec_modbus(d2, a2))
                    &&& (forall|p2: u8|
                        #[trigger] post.conflict.spec_gpio(p2) == pre.conflict.spec_gpio(p2))
                    &&& (forall|d2: Seq<char>, a2: u16|
                        #[trigger] post.conflict.spec_coil(d2, a2) == pre.conflict.spec_coil(
                            d2,
                            a2,
                        ))
                    &&& (verdict == ConflictKind::KindDuplicate ==> r.success && post.modbus
                        == pre.modbus && r.message@ == "Duplicate write suppressed"@)
                    &&& (verdict != ConflictKind::KindDuplicate ==> exists|
                        wr: Result<(), crate::hardware::ModbusError>,
                    |
                        {
                            &&& #[trigger] crate::hardware::spec_write_register_rel(
                                pre.modbus,
                                post.modbus,
                                d,
                                ad,
                                v16,
                                now0 as nat,
                                wr,
                            )
                            &&& r.success == (wr is Ok)
                            &&& (wr is Ok && verdict == ConflictKind::KindNoConflict
                                ==> r.message@ == spec_reg_ok_msg(v16, d, ad))
                            &&& (wr is Ok && verdict == ConflictKind::KindConflict ==> (
                            pre.conflict.spec_modbus(d, ad) matches Some(pw) && r.message@
                                == spec_reg_ok_msg(v16, d, ad) + " ("@
                                + crate::conflict::spec_modbus_conflict_msg(
                                    d,
                                    ad,
                                    script,
                                    v16,
                                    pw.script,
                                    match pw.value {
                                        crate::conflict::WriteValue::U16(x) => x,
                                        crate::conflict::WriteValue::Bool(_) => 0,
                                    },
                                ) + ")"@))
                            &&& (wr is Err ==> r.message@ == "Failed: "@
                                + crate::hardware::spec_modbus_err_chars(wr))
                        })
                } else {
                    spec_failed_as(r, ActionType::WriteModbus, "Missing or invalid value"@)
                        && post == pre
                }
            },
            _ => spec_failed_as(r, ActionType::WriteModbus, "Missing or invalid value"@) && post
                == pre,
        },
    }))
}

/// The coil-write clause of one dispatch.
pub open spec fn spec_dispatch_coil(
    pre: ScriptEngine,
    post: ScriptEngine,
    script: Seq<char>,
    a: ActionV,
    depth: u64,
    now0: u64,
    now1: u64,
    r: ActionResult,
    max: u64,
) -> bool {
    &&& (a.action_type == ActionType::WriteCoil && spec_guard_ok(&pre.context, a) ==> (match (
        a.device,
        a.address,
    ) {
        (None, _) => spec_failed_as(r, ActionType::WriteCoil, "Missing device name"@) && post
            == pre,
        (Some(_), None) => spec_failed_as(r, ActionType::WriteCoil, "Missing coil address"@)
            && post == pre,
        (Some(d), Some(ad)) => match a.value {
            Some(crate::value::ValueV::Bool(v)) => {
                let verdict = crate::conflict::spec_verdict(
                    pre.conflict.spec_coil(d, ad),
                    script,
                    crate::conflict::WriteValue::Bool(v),
                );
                &&& r.action_type == ActionType::WriteCoil
                &&& post.conflict.spec_coil(d, ad) == (if verdict == ConflictKind::KindDuplicate {
                    pre.conflict.spec_coil(d, ad)
                } else {
                    Some(
                        crate::conflict::PendingV {
                            script,
                            value: crate::conflict::WriteValue::Bool(v),
                        },
                    )
                })
                &&& (forall|d2: Seq<char>, a2: u16|
                    !(d2 == d && a2 == ad) ==> #[trigger] post.conflict.spec_coil(d2, a2)
                        == pre.conflict.spec_coil(d2, a2))
                &&& (forall|p2: u8|
                    #[trigger] post.conflict.spec_gpio(p2) == pre.conflict.spec_gpio(p2))
                &&& (forall|d2: Seq<char>, a2: u16|
                    #[trigger] post.conflict.spec_modbus(d2, a2) == pre.conflict.spec_modbus(
                        d2,
                        a2,
                    ))
                &&& (verdict == ConflictKind::KindDuplicate ==> r.success && post.modbus
                    == pre.modbus && r.message@ == "Duplicate write suppressed"@)
                &&& (verdict != ConflictKind::KindDuplicate ==> exists|
                    wr: Result<(), crate::hardware::ModbusError>,
                |
                    {
                        &&& #[trigger] crate::hardware::spec_write_coil_rel(
                            pre.modbus,
                            post.modbus,
                            d,
                            ad,
                            v,
                            now0 as nat,
                            wr,
                        )
                        &&& r.success == (wr is Ok)
                        &&& (wr is Ok && verdict == ConflictKind::KindNoConflict ==> r.message@
                            == spec_coil_ok_msg(v, d, ad))
                        &&& (wr is Ok && verdict == ConflictKind::KindConflict ==> (
                        pre.conflict.spec_coil(d, ad) matches Some(pw) && r.message@
                            == spec_coil_ok_msg(v, d, ad) + " ("@
                            + crate::conflict::spec_coil_conflict_msg(
                                d,
                                ad,
                                script,
                                v,
                                pw.script,
                                pw.value == crate::conflict::WriteValue::Bool(true),
                            ) + ")"@))
                        &&& (wr is Err ==> r.message@ == "Failed: "@
                            + crate::hardware::spec_modbus_err_chars(wr))
                    })
            },
            _ => spec_failed_as(r, ActionType::WriteCoil, "Missing or invalid value"@) && post
                == pre,
        },
    }))
}

/// The alert, variable, log, delay, publish and no-op clauses of one
/// dispatch.
pub open spec fn spec_dispatch_simple(
    pre: ScriptEngine,
    post: ScriptEngine,
    script: Seq<char>,
    a: ActionV,
    depth: u64,
    now0: u64,
    now1: u64,
    r: ActionResult,
    max: u64,
) -> bool {
    &&& (a.action_type == ActionType::Alert && spec_guard_ok(&pre.context, a) ==> (match a.message {
        None => spec_failed_as(r, ActionType::Alert, "Missing message"@) && post == pre,
        Some(mt) => {
            let it = pre.context.spec_interpolate(mt);
            &&& r.success
            &&& r.action_type == ActionType::Alert
            &&& spec_outbox_push(pre.outbox@, post.outbox@, "alerts"@, it)
            &&& r.message@ == "Alert sent: "@ + it
        },
    }))
    &&& (a.action_type == ActionType::SetVariable && spec_guard_ok(&pre.context, a) ==> (match a.value {
        None => spec_failed_as(r, ActionType::SetVariable, "Missing value"@) && post == pre,
        Some(v) => {
            &&& r.success
            &&& r.action_type == ActionType::SetVariable
            &&& post.context.spec_var(a.target) == Some(v)
            &&& (forall|k: Seq<char>|
                k != a.target ==> #[trigger] post.context.spec_var(k) == pre.context.spec_var(k))
            &&& (forall|k: Seq<char>|
                #[trigger] post.context.spec_sensor(k) == pre.context.spec_sensor(k))
            &&& (forall|k: Seq<char>|
                #[trigger] post.context.spec_gpio(k) == pre.context.spec_gpio(k))
            &&& post.context.spec_time() == pre.context.spec_time()
            &&& r.message@ == "Set "@ + a.target + " = "@ + crate::value::spec_value_chars(v)
        },
    }))
    &&& (a.action_type == ActionType::Log && spec_guard_ok(&pre.context, a) ==> (match a.message {
        None => spec_failed_as(r, ActionType::Log, "Missing message"@) && post == pre,
        Some(mt) => r.success && r.action_type == ActionType::Log && post == pre && r.message@
            == pre.context.spec_interpolate(mt),
    }))
    &&& (a.action_type == ActionType::Delay && spec_guard_ok(&pre.context, a) ==> {
        let dm = match a.delay_ms {
            Some(x) => x,
            None => 1000,
        };
        &&& (dm > pre.limits.max_delay_ms ==> spec_failed_as(
            r,
            ActionType::Delay,
            spec_delay_msg(dm, pre.limits.max_delay_ms),
        ) && post == pre && now1 == now0)
        &&& (dm <= pre.limits.max_delay_ms ==> r.success && r.action_type == ActionType::Delay
            && post == pre && now1 == spec_sat_add(now0, dm) && r.message@ == "Delayed "@
            + spec_dec(dm as nat) + "ms"@)
    })
    &&& (a.action_type == ActionType::PublishMqtt && spec_guard_ok(&pre.context, a) ==> (
    match a.message {
        None => spec_failed_as(r, ActionType::PublishMqtt, "Missing message"@) && post == pre,
        Some(mt) => {
            let topic = if a.target.len() == 0 {
                "scripts/output"@
            } else {
                pre.context.spec_interpolate(a.target)
            };
            &&& r.success
            &&& r.action_type == ActionType::PublishMqtt
            &&& spec_outbox_push(
                pre.outbox@,
                post.outbox@,
                topic,
                pre.context.spec_interpolate(mt),
            )
            &&& r.message@ == "Published to "@ + topic
        },
    }))
    &&& (a.action_type == ActionType::Noop && spec_guard_ok(&pre.context, a) ==> r.success
        && r.action_type == ActionType::Noop && r.message@ == "No operation"@ && post == pre)
}

/// Names one candidate outcome of a nested execution; the quantifier
/// trigger for the nested-call witness in [`spec_dispatch_call`].
pub open spec fn spec_call_witness(ir: Result<ExecutionResult, EngineError>) -> bool {
    true
}

/// Names one candidate set of chain witnesses; the quantifier trigger for
/// the main-path witnesses in [`spec_execute_main`].
pub open spec fn spec_chain_witness(
    d: int,
    states: Seq<ScriptEngine>,
    times: Seq<u64>,
    rs_d: Seq<ActionResult>,
    rs_main: Seq<ActionResult>,
    hstates: Seq<ScriptEngine>,
    htimes: Seq<u64>,
    rs_h: Seq<ActionResult>,
    h: int,
) -> bool {
    true
}

/// The nested-call clause of one dispatch: the outcome of a `call_script`
/// action follows a recursive execution at the next depth.
pub open spec fn spec_dispatch_call(
    pre: ScriptEngine,
    post: ScriptEngine,
    script: Seq<char>,
    a: ActionV,
    depth: u64,
    now0: u64,
    now1: u64,
    r: ActionResult,
    max: u64,
) -> bool
    decreases depth_measure(max, depth), 0int, 0int,
{
    &&& (a.action_type == ActionType::CallScript && spec_guard_ok(&pre.context, a) ==> (
    match a.script_id {
        None => spec_failed_as(r, ActionType::CallScript, "Missing script_id"@) && post == pre,
        Some(cid) => if depth < max {
            exists|ir: Result<ExecutionResult, EngineError>|
                {
                    &&& #[trigger] spec_call_witness(ir)
                    &&& spec_execute_rel(pre, post, cid, (depth + 1) as u64, now0, ir, max)
                    &&& now1 == now0
                    &&& r.action_type == ActionType::CallScript
                    &&& (match ir {
                        Ok(inner) => {
                            &&& r.success == inner.success
                            &&& (inner.success ==> r.message@ == "Called script "@ + cid)
                            &&& (!inner.success ==> r.message@ == "Script "@ + cid + " failed: "@
                                + (if inner.results@.len() > 0 {
                                inner.results@[0].message@
                            } else {
                                "Unknown error"@
                            }))
                        },
                        Err(_) => !r.success && r.message@ == "Failed to call script: "@ + cid
                            + " not found"@,
                    })
                }
        } else {
            true
        },
    }))
}

/// The alert, variable, log, delay, publish, nested-call and no-op
/// clauses of one dispatch.
pub open spec fn spec_dispatch_plain(
    pre: ScriptEngine,
    post: ScriptEngine,
    script: Seq<char>,
    a: ActionV,
    depth: u64,
    now0: u64,
    now1: u64,
    r: ActionResult,
    max: u64,
) -> bool
    decreases depth_measure(max, depth), 0int, 1int,
{
    spec_dispatch_simple(pre, post, script, a, depth, now0, now1, r, max) && spec_dispatch_call(
        pre,
        post,
        script,
        a,
        depth,
        now0,
        now1,
        r,
        max,
    )
}


/// The coil-write clause and the remaining arms of one dispatch (second
/// half of [`spec_dispatch`]).
pub open spec fn spec_dispatch_rest(
    pre: ScriptEngine,
    post: ScriptEngine,
    script: Seq<char>,
    a: ActionV,
    depth: u64,
    now0: u64,
    now1: u64,
    r: ActionResult,
    max: u64,
) -> bool
    decreases depth_measure(max, depth), 0int, 2int,
{
    spec_dispatch_coil(pre, post, script, a, depth, now0, now1, r, max) && spec_dispatch_plain(pre, post, script, a, depth, now0, now1, r, max)
}


/// The whole effect of dispatching one action: every arm's validation,
/// arbitration, hardware effect, outbox append, context write, clock
/// advance and message text, plus frame clauses saying which parts of the
/// engine each kind of action may touch.
pub open spec fn spec_dispatch(
    pre: ScriptEngine,
    post: ScriptEngine,
    script: Seq<char>,
    a: ActionV,
    depth: u64,
    now0: u64,
    now1: u64,
    r: ActionResult,
    max: u64,
) -> bool
    decreases depth_measure(max, depth), 0int, 3int,
{
    spec_dispatch_core(pre, post, script, a, depth, now0, now1, r, max) && spec_dispatch_rest(pre, post, script, a, depth, now0, now1, r, max)
}


/// Chained dispatch of an action list, with the intermediate engine
/// states and clock values as explicit witnesses: `states[k]` is the
/// engine before action `k` (`states.last()` after the last one), and
/// `times[k]` the clock then. Each step is permitted by the time budget
/// and the action quota at its position and transforms the engine per
/// [`spec_dispatch`].
pub open spec fn spec_steps(
    states: Seq<ScriptEngine>,
    times: Seq<u64>,
    script: Seq<char>,
    acts: Seq<ActionV>,
    depth: u64,
    start: u64,
    budget: u64,
    quota: u64,
    used0: int,
    rs: Seq<ActionResult>,
    max: u64,
) -> bool
    decreases depth_measure(max, depth), 1int, acts.len(),
{
    &&& states.len() == acts.len() + 1
    &&& times.len() == acts.len() + 1
    &&& rs.len() == acts.len()
    &&& (acts.len() > 0 ==> spec_steps(
        states.drop_last(),
        times.drop_last(),
        script,
        acts.drop_last(),
        depth,
        start,
        budget,
        quota,
        used0,
        rs.drop_last(),
        max,
    ) && times[acts.len() - 1] as int <= start as int + budget as int && used0 + acts.len() - 1
        < quota && spec_dispatch(
        states[acts.len() - 1],
        states.last(),
        script,
        acts.last(),
        depth,
        times[acts.len() - 1],
        times.last(),
        rs.last(),
        max,
    ))
}

/// The rate limiter after charging one attempt for `id` at `now`: the
/// effective window's count grows by one (accepted or not); other scripts'
/// windows are untouched.
pub open spec fn spec_rate_charged(
    pre: ScriptRateLimiter,
    post: ScriptRateLimiter,
    id: Seq<char>,
    now: u64,
) -> bool {
    &&& post.spec_limit() == pre.spec_limit()
    &&& post.spec_has(id)
    &&& post.spec_window(id).start_ms == pre.spec_effective(id, now as nat).start_ms
    &&& post.spec_window(id).count == vstd::math::min(
        pre.spec_effective(id, now as nat).count as int + 1,
        u64::MAX as int,
    )
    &&& (forall|s: Seq<char>| s != id ==> #[trigger] post.spec_has(s) == pre.spec_has(s))
    &&& (forall|s: Seq<char>|
        s != id && pre.spec_has(s) ==> #[trigger] post.spec_window(s) == pre.spec_window(s))
}

/// The engine right after an execution's prelude: the rate window charged,
/// the script marked `Running`, everything else untouched.
pub open spec fn spec_prelude(
    pre: ScriptEngine,
    pre1: ScriptEngine,
    id: Seq<char>,
    now: u64,
) -> bool {
    &&& pre1.wf()
    &&& pre1.limits == pre.limits
    &&& pre1.context == pre.context
    &&& pre1.gpio == pre.gpio
    &&& pre1.modbus == pre.modbus
    &&& pre1.conflict == pre.conflict
    &&& pre1.trigger_manager == pre.trigger_manager
    &&& pre1.outbox == pre.outbox
    &&& spec_rate_charged(pre.rate_limiter, pre1.rate_limiter, id, now)
    &&& pre1.storage.spec_len() == pre.storage.spec_len()
    &&& (forall|x: Seq<char>|
        #[trigger] pre1.storage.spec_has(x) == pre.storage.spec_has(x))
    &&& pre.storage.spec_has(id) ==> pre1.storage.spec_at(id) == (crate::storage::ScriptV {
        status: ScriptStatus::Running,
        ..pre.storage.spec_at(id)
    })
    &&& (forall|x: Seq<char>|
        x != id && pre.storage.spec_has(x) ==> #[trigger] pre1.storage.spec_at(x)
            == pre.storage.spec_at(x))
}

/// The engine after an execution's epilogue: the run's outcome recorded in
/// storage under `id`, everything else untouched.
pub open spec fn spec_finalize(
    m: ScriptEngine,
    post: ScriptEngine,
    id: Seq<char>,
    success: bool,
    msg: Seq<char>,
    t: u64,
) -> bool {
    &&& post.limits == m.limits
    &&& post.context == m.context
    &&& post.gpio == m.gpio
    &&& post.modbus == m.modbus
    &&& post.conflict == m.conflict
    &&& post.trigger_manager == m.trigger_manager
    &&& post.outbox == m.outbox
    &&& post.rate_limiter == m.rate_limiter
    &&& post.storage.spec_len() == m.storage.spec_len()
    &&& (forall|x: Seq<char>|
        #[trigger] post.storage.spec_has(x) == m.storage.spec_has(x))
    &&& (m.storage.spec_has(id) ==> post.storage.spec_at(id) == ScriptStorage::spec_apply_result(
        m.storage.spec_at(id),
        success,
        msg,
        t as nat,
    ))
    &&& (forall|x: Seq<char>|
        x != id && m.storage.spec_has(x) ==> #[trigger] post.storage.spec_at(x)
            == m.storage.spec_at(x))
}

/// One complete main-path run, witness by witness: the dispatched prefix
/// of the action list (`d` actions, ending state `mid` at time `now_d`
/// with outcomes `rs_d`), the terminal limit marker when one was breached
/// (`rs_main` is the primary result list), the dispatched handler prefix
/// (`h` handlers, ending state `mid2` at `now_h` with outcomes `rs_h`),
/// and the recorded outcome.
pub open spec fn spec_main_chain(
    pre1: ScriptEngine,
    post: ScriptEngine,
    id: Seq<char>,
    def: crate::model::DefinitionV,
    depth: u64,
    now: u64,
    limits: ScriptLimits,
    r: Result<ExecutionResult, EngineError>,
    d: int,
    states: Seq<ScriptEngine>,
    times: Seq<u64>,
    rs_d: Seq<ActionResult>,
    rs_main: Seq<ActionResult>,
    hstates: Seq<ScriptEngine>,
    htimes: Seq<u64>,
    rs_h: Seq<ActionResult>,
    h: int,
    max: u64,
) -> bool
    decreases depth_measure(max, depth), 2int, 0int,
{
    let mid = states.last();
    let now_d = times.last();
    let mid2 = hstates.last();
    let now_h = htimes.last();
    &&& 0 <= d <= def.actions.len()
    &&& states.len() > 0 && times.len() > 0 && hstates.len() > 0 && htimes.len() > 0
    &&& states[0] == pre1 && times[0] == now
    &&& hstates[0] == mid && htimes[0] == now_d
    &&& spec_steps(
        states,
        times,
        id,
        def.actions.subrange(0, d),
        depth,
        now,
        limits.max_execution_time_ms,
        limits.max_actions_per_run,
        0,
        rs_d,
        max,
    )
    &&& ((d == def.actions.len() && rs_main == rs_d) || (d < def.actions.len() && now_d as int
        > now as int + limits.max_execution_time_ms as int && rs_main.len() == rs_d.len() + 1
        && rs_main.drop_last() == rs_d && spec_failed_as(
        rs_main.last(),
        ActionType::Noop,
        "Execution time limit exceeded"@,
    )) || (d < def.actions.len() && now_d as int <= now as int
        + limits.max_execution_time_ms as int && d >= limits.max_actions_per_run && rs_main.len()
        == rs_d.len() + 1 && rs_main.drop_last() == rs_d && spec_failed_as(
        rs_main.last(),
        ActionType::Noop,
        spec_action_limit_msg(limits.max_actions_per_run),
    )))
    &&& (if count_failures(rs_main) > 0 && def.on_error.len() > 0 {
        &&& 0 <= h <= def.on_error.len()
        &&& spec_steps(
            hstates,
            htimes,
            id,
            def.on_error.subrange(0, h),
            depth,
            now,
            limits.max_execution_time_ms,
            limits.max_actions_per_run,
            d,
            rs_h,
            max,
        )
        &&& (h == def.on_error.len() || now_h as int > now as int
            + limits.max_execution_time_ms as int || d + h >= limits.max_actions_per_run)
    } else {
        mid2 == mid && now_h == now_d && rs_h.len() == 0
    })
    &&& (r matches Ok(res) && res.results@ == rs_main + rs_h && res.actions_executed
        == count_successes(rs_main) && res.actions_failed == count_failures(rs_main)
        && res.duration_ms == now_h - now && res.timestamp@ == rfc3339_of(now_h)
        && spec_finalize(
        mid2,
        post,
        id,
        res.success,
        if res.success {
            "Completed "@ + spec_dec(res.actions_executed as nat) + " actions"@
        } else {
            spec_dec(res.actions_failed as nat) + " actions failed"@
        },
        now_h,
    ))
}

/// The guard, error, bound and bookkeeping clauses of one execution
/// (first half of [`spec_execute_rel`]).
pub open spec fn spec_execute_guards(
    pre: ScriptEngine,
    post: ScriptEngine,
    id: Seq<char>,
    depth: u64,
    now: u64,
    r: Result<ExecutionResult, EngineError>,
    max: u64,
) -> bool {
    &&& max == pre.limits.max_call_depth
    &&& post.wf()
    &&& post.limits == pre.limits
    &&& (forall|x: Seq<char>|
        #[trigger] post.storage.spec_has(x) == pre.storage.spec_has(x))
    &&& (forall|x: Seq<char>|
        pre.storage.spec_has(x) ==> (#[trigger] post.storage.spec_at(x)).definition
            == pre.storage.spec_at(x).definition)
    &&& (forall|x: Seq<char>|
        pre.storage.spec_has(x) && (#[trigger] pre.storage.spec_at(x)).status
            != ScriptStatus::Paused ==> post.storage.spec_at(x).status != ScriptStatus::Paused)
    // Depth guard: nothing happens, not even rate charging.
    &&& (depth >= max ==> post == pre && (r matches Ok(res) && !res.success && res.script_id@
        == id && res.actions_executed == 0 && res.actions_failed == 1 && res.results@.len() == 1
        && spec_failed_as(res.results@[0], ActionType::CallScript, spec_depth_msg(max))
        && res.duration_ms == 0 && res.timestamp@ == rfc3339_of(now)))
    // Rate guard: the attempt is charged and rejected; nothing else moves.
    &&& (depth < max && !(pre.rate_limiter.spec_effective(id, now as nat).count
        < pre.rate_limiter.spec_limit()) ==> (r matches Ok(res) && !res.success && res.script_id@
        == id && res.actions_executed == 0 && res.actions_failed == 1 && res.results@.len() == 1
        && spec_failed_as(
        res.results@[0],
        ActionType::Noop,
        spec_rate_msg(pre.limits.rate_limit_per_minute),
    ) && res.duration_ms == 0 && res.timestamp@ == rfc3339_of(now)) && post.storage
        == pre.storage && post.context == pre.context && post.gpio == pre.gpio && post.modbus
        == pre.modbus && post.conflict == pre.conflict && post.trigger_manager
        == pre.trigger_manager && post.outbox == pre.outbox && spec_rate_charged(
        pre.rate_limiter,
        post.rate_limiter,
        id,
        now,
    ))
    // The one transport-level error: an unknown id (after the charge).
    &&& (r is Err <==> depth < max && pre.rate_limiter.spec_effective(id, now as nat).count
        < pre.rate_limiter.spec_limit() && !pre.storage.spec_has(id))
    &&& (r is Err ==> post.storage == pre.storage && post.context == pre.context && post.gpio
        == pre.gpio && post.modbus == pre.modbus && post.conflict == pre.conflict
        && post.trigger_manager == pre.trigger_manager && post.outbox == pre.outbox
        && spec_rate_charged(pre.rate_limiter, post.rate_limiter, id, now))
    &&& (r matches Ok(res) ==> res.script_id@ == id && res.success == (res.actions_failed == 0)
        && res.actions_executed <= pre.limits.max_actions_per_run && res.actions_executed
        + res.actions_failed <= pre.limits.max_actions_per_run + 1)
    // Sticky error: a recorded run ends with a zero count on success; a
    // failure raises the count, and reaching the threshold latches `Error`.
    &&& ((depth < max && pre.rate_limiter.spec_effective(id, now as nat).count
        < pre.rate_limiter.spec_limit() && pre.storage.spec_has(id)) ==> post.storage.spec_has(id)
        && (r matches Ok(res) ==> {
        let rec = post.storage.spec_at(id);
        &&& (res.success ==> rec.error_count == 0 && (rec.status == ScriptStatus::Active
            || rec.status == ScriptStatus::Error))
        &&& (!res.success ==> rec.error_count > 0)
        &&& (!res.success && rec.error_count >= crate::storage::error_latch_threshold()
            ==> rec.status == ScriptStatus::Error)
    }))
}

/// The main path of one execution (second half of [`spec_execute_rel`]):
/// prelude, conditions, the action chain with its limit markers, the
/// handler chain, and the recorded outcome.
pub open spec fn spec_execute_main(
    pre: ScriptEngine,
    post: ScriptEngine,
    id: Seq<char>,
    depth: u64,
    now: u64,
    r: Result<ExecutionResult, EngineError>,
    max: u64,
) -> bool
    decreases depth_measure(max, depth), 3int, 0int,
{
    // The main path: prelude, conditions, the action chain with its limit
    // markers, the handler chain, and the recorded outcome.
    &&& ((depth < max && pre.rate_limiter.spec_effective(id, now as nat).count
        < pre.rate_limiter.spec_limit() && pre.storage.spec_has(id)) ==> {
        let def = pre.storage.spec_at(id).definition;
        exists|pre1: ScriptEngine|
            {
                &&& #[trigger] spec_prelude(pre, pre1, id, now)
                &&& if !spec_conditions_hold(&pre.context, def.conditions) {
                    (r matches Ok(res) && res.success && res.actions_executed == 0
                        && res.actions_failed == 0 && res.results@.len() == 0 && res.duration_ms
                        == 0 && res.timestamp@ == rfc3339_of(now)) && spec_finalize(
                        pre1,
                        post,
                        id,
                        true,
                        "Conditions not met - skipped"@,
                        now,
                    )
                } else {
                    exists|
                        d: int,
                        states: Seq<ScriptEngine>,
                        times: Seq<u64>,
                        rs_d: Seq<ActionResult>,
                        rs_main: Seq<ActionResult>,
                        hstates: Seq<ScriptEngine>,
                        htimes: Seq<u64>,
                        rs_h: Seq<ActionResult>,
                        h: int,
                    |
                        {
                            &&& #[trigger] spec_chain_witness(
                                d,
                                states,
                                times,
                                rs_d,
                                rs_main,
                                hstates,
                                htimes,
                                rs_h,
                                h,
                            )
                            &&& spec_main_chain(
                                pre1,
                                post,
                                id,
                                def,
                                depth,
                                now,
                                pre.limits,
                                r,
                                d,
                                states,
                                times,
                                rs_d,
                                rs_main,
                                hstates,
                                htimes,
                                rs_h,
                                h,
                                max,
                            )
                        }
                }
            }
    })
}

/// The whole effect of executing a script at a given depth and time: the
/// depth guard, the rate guard, the unknown-id error, and the main path —
/// the script marked running, its conditions evaluated, its actions
/// dispatched in order under the time budget and action quota (with the
/// exact terminal limit marker when one is breached), the error handlers
/// run under the shared quota, and the outcome recorded.
pub open spec fn spec_execute_rel(
    pre: ScriptEngine,
    post: ScriptEngine,
    id: Seq<char>,
    depth: u64,
    now: u64,
    r: Result<ExecutionResult, EngineError>,
    max: u64,
) -> bool
    decreases depth_measure(max, depth), 3int, 1int,
{
    spec_execute_guards(pre, post, id, depth, now, r, max) && spec_execute_main(pre, post, id, depth, now, r, max)
}


/// Names one candidate run list; the quantifier trigger for the execution
/// witnesses of [`ScriptEngine::tick`] and
/// [`ScriptEngine::run_startup_scripts`].
pub open spec fn spec_runs_witness(
    states: Seq<ScriptEngine>,
    ids: Seq<Seq<char>>,
    outs: Seq<ExecutionResult>,
) -> bool {
    true
}

/// Names one candidate selection; the quantifier trigger for the
/// storage-order witness of [`spec_fired_from`].
pub open spec fn spec_idx_witness(idx: Seq<int>) -> bool {
    true
}

/// Chained top-level executions at one instant: `states[k]` is the engine
/// before the `k`-th run (`states.last()` after the last one), and run `k`
/// executed the script `ids[k]` once, at depth 0, with outcome `outs[k]`.
pub open spec fn spec_run_chain(
    states: Seq<ScriptEngine>,
    ids: Seq<Seq<char>>,
    outs: Seq<ExecutionResult>,
    now: u64,
    max: u64,
) -> bool
    decreases ids.len(),
{
    &&& states.len() == ids.len() + 1
    &&& outs.len() == ids.len()
    &&& (ids.len() > 0 ==> spec_run_chain(
        states.drop_last(),
        ids.drop_last(),
        outs.drop_last(),
        now,
        max,
    ) && spec_execute_rel(
        states[ids.len() - 1],
        states.last(),
        ids.last(),
        0,
        now,
        Ok(outs.last()),
        max,
    ))
}

/// `ids` names, first to last, the ids of a left-to-right selection of the
/// records `act`: each record selected at most once, storage order kept.
pub open spec fn spec_fired_from(ids: Seq<Seq<char>>, act: Seq<crate::storage::ScriptV>) -> bool {
    exists|idx: Seq<int>|
        {
            &&& #[trigger] spec_idx_witness(idx)
            &&& idx.len() == ids.len()
            &&& (forall|k: int| 0 <= k < idx.len() ==> 0 <= #[trigger] idx[k] < act.len())
            &&& (forall|k: int, l: int| 0 <= k < l < idx.len() ==> idx[k] < idx[l])
            &&& (forall|k: int|
                0 <= k < idx.len() ==> ids[k] == act[#[trigger] idx[k]].definition.id)
        }
}

/// Whether a trigger list holds a startup trigger.
pub open spec fn spec_has_startup(ts: Seq<crate::model::TriggerV>) -> bool {
    exists|i: int| 0 <= i < ts.len() && ts[i] == crate::model::TriggerV::Startup
}

/// The ids of the runnable records that carry a startup trigger, in
/// storage order.
pub open spec fn spec_startup_ids(act: Seq<crate::storage::ScriptV>) -> Seq<Seq<char>> {
    act.filter(|s: crate::storage::ScriptV| spec_has_startup(s.definition.triggers)).map_values(
        |s: crate::storage::ScriptV| s.definition.id,
    )
}

impl ScriptEngine {
    /// Dispatch one action of `script_id` at nesting depth `depth` and
    /// simulated time `now_ms`. Returns the action's outcome and the time
    /// after the action (a `delay` advances it); the whole effect is pinned
    /// by [`spec_dispatch`].
    #[verifier::rlimit(100)]
    #[verifier::spinoff_prover]
    fn dispatch_action(&mut self, script_id: &str, action: &Action, depth: u64, now_ms: u64) -> (r:
        (ActionResult, u64))
        requires
            old(self).wf(),
            depth < old(self).limits.max_call_depth,
        ensures
            final(self).wf(),
            spec_dispatch_core(
                *old(self),
                *final(self),
                script_id@,
                action@,
                depth,
                now_ms,
                r.1,
                r.0,
                old(self).limits.max_call_depth,
            ),
            spec_dispatch_coil(
                *old(self),
                *final(self),
                script_id@,
                action@,
                depth,
                now_ms,
                r.1,
                r.0,
                old(self).limits.max_call_depth,
            ),
            spec_dispatch_simple(
                *old(self),
                *final(self),
                script_id@,
                action@,
                depth,
                now_ms,
                r.1,
                r.0,
                old(self).limits.max_call_depth,
            ),
            spec_dispatch_call(
                *old(self),
                *final(self),
                script_id@,
                action@,
                depth,
                now_ms,
                r.1,
                r.0,
                old(self).limits.max_call_depth,
            ),

        decreases old(self).limits.max_call_depth - depth, 1int,
    {
        match &action.condition {
            Some(c) => {
                if !self.evaluate_condition(c) {
                    return (
                        ActionResult::success_result(
                            ActionType::Noop,
                            "Condition not met - skipped".to_owned(),
                        ),
                        now_ms,
                    );
                }
            },
            None => {},
        }
        match action.action_type {
            ActionType::SetGpio => {
                let pin = match parse_pin(action.target.as_str()) {
                    Some(p) => p,
                    None => {
                        return (
                            ActionResult::failure_result(
                                ActionType::SetGpio,
                                "Invalid pin number".to_owned(),
                            ),
                            now_ms,
                        );
                    },
                };
                let value = match &action.value {
                    Some(Value::Bool(b)) => *b,
                    _ => {
                        return (
                            ActionResult::failure_result(
                                ActionType::SetGpio,
                                "Missing or invalid value".to_owned(),
                            ),
                            now_ms,
                        );
                    },
                };
                let verdict = self.conflict.check_gpio_write(script_id, pin, value);
                if verdict.suppresses_write() {
                    return (
                        ActionResult::success_result(
                            ActionType::SetGpio,
                            "Duplicate write suppressed".to_owned(),
                        ),
                        now_ms,
                    );
                }
                let wrote = self.gpio.write_pin(pin, value);
                match wrote {
                    Ok(()) => {
                        let mut m: Vec<char> = Vec::new();
                        push_str_chars(&mut m, "Set GPIO ");
                        push_dec(&mut m, pin as u64);
                        push_str_chars(&mut m, if value { " to HIGH" } else { " to LOW" });
                        match verdict {
                            ConflictResult::Conflict { message } => {
                                push_str_chars(&mut m, " (");
                                push_str_chars(&mut m, message.as_str());
                                push_str_chars(&mut m, ")");
                            },
                            _ => {},
                        }
                        (ActionResult::success_result(ActionType::SetGpio, chars_to_string(&m)),
                        now_ms)
                    },
                    Err(_) => {
                        (
                            ActionResult::failure_result(
                                ActionType::SetGpio,
                                "Failed: GPIO pin not configured".to_owned(),
                            ),
                            now_ms,
                        )
                    },
                }
            },
            ActionType::WriteModbus => {
                let device = match &action.device {
                    Some(d) => d.clone(),
                    None => {
                        return (
                            ActionResult::failure_result(
                                ActionType::WriteModbus,
                                "Missing device name".to_owned(),
                            ),
                            now_ms,
                        );
                    },
                };
                let address = match action.address {
                    Some(a) => a,
                    None => {
                        return (
                            ActionResult::failure_result(
                                ActionType::WriteModbus,
                                "Missing register address".to_owned(),
                            ),
                            now_ms,
                        );
                    },
                };
                let value64 = match &action.value {
                    Some(v) => v.as_u64(),
                    None => None,
                };
                let value: u16 = match value64 {
                    Some(x) => {
                        if x <= 0xffff {
                            x as u16
                        } else {
                            return (
                                ActionResult::failure_result(
                                    ActionType::WriteModbus,
                                    "Missing or invalid value".to_owned(),
                                ),
                                now_ms,
                            );
                        }
                    },
                    None => {
                        return (
                            ActionResult::failure_result(
                                ActionType::WriteModbus,
                                "Missing or invalid value".to_owned(),
                            ),
                            now_ms,
                        );
                    },
                };
                let verdict = self.conflict.check_modbus_write(
                    script_id,
                    device.as_str(),
                    address,
                    value,
                );
                if verdict.suppresses_write() {
                    return (
                        ActionResult::success_result(
                            ActionType::WriteModbus,
                            "Duplicate write suppressed".to_owned(),
                        ),
                        now_ms,
                    );
                }
                let ghost premb = self.modbus;
                let wrote = self.modbus.write_register(device.as_str(), address, value, now_ms);
                let ghost gw = wrote;
                proof {
                    assert(premb == old(self).modbus);
                    assert(crate::hardware::spec_write_register_rel(
                        premb,
                        self.modbus,
                        device@,
                        address,
                        value,
                        now_ms as nat,
                        gw,
                    ));
                }
                match wrote {
                    Ok(()) => {
                        let mut m: Vec<char> = Vec::new();
                        push_str_chars(&mut m, "Wrote ");
                        push_dec(&mut m, value as u64);
                        push_str_chars(&mut m, " to ");
                        push_str_chars(&mut m, device.as_str());
                        push_str_chars(&mut m, ":");
                        push_dec(&mut m, address as u64);
                        match verdict {
                            ConflictResult::Conflict { message } => {
                                push_str_chars(&mut m, " (");
                                push_str_chars(&mut m, message.as_str());
                                push_str_chars(&mut m, ")");
                            },
                            _ => {},
                        }
                        (
                            ActionResult::success_result(
                                ActionType::WriteModbus,
                                chars_to_string(&m),
                            ),
                            now_ms,
                        )
                    },
                    Err(e) => {
                        let mut m: Vec<char> = Vec::new();
                        push_str_chars(&mut m, "Failed: ");
                        let em = e.message();
                        push_str_chars(&mut m, em.as_str());
                        (
                            ActionResult::failure_result(
                                ActionType::WriteModbus,
                                chars_to_string(&m),
                            ),
                            now_ms,
                        )
                    },
                }
            },
            ActionType::WriteCoil => {
                let device = match &action.device {
                    Some(d) => d.clone(),
                    None => {
                        return (
                            ActionResult::failure_result(
                                ActionType::WriteCoil,
                                "Missing device name".to_owned(),
                            ),
                            now_ms,
                        );
                    },
                };
                let address = match action.address {
                    Some(a) => a,
                    None => {
                        return (
                            ActionResult::failure_result(
                                ActionType::WriteCoil,
                                "Missing coil address".to_owned(),
                            ),
                            now_ms,
                        );
                    },
                };
                let value = match &action.value {
                    Some(Value::Bool(b)) => *b,
                    _ => {
                        return (
                            ActionResult::failure_result(
                                ActionType::WriteCoil,
                                "Missing or invalid value".to_owned(),
                            ),
                            now_ms,
                        );
                    },
                };
                let verdict = self.conflict.check_coil_write(
                    script_id,
                    device.as_str(),
                    address,
                    value,
                );
                if verdict.suppresses_write() {
                    return (
                        ActionResult::success_result(
                            ActionType::WriteCoil,
                            "Duplicate write suppressed".to_owned(),
                        ),
                        now_ms,
                    );
                }
                let ghost premb = self.modbus;
                let wrote = self.modbus.write_coil(device.as_str(), address, value, now_ms);
                let ghost gw = wrote;
                proof {
                    assert(premb == old(self).modbus);
                    assert(crate::hardware::spec_write_coil_rel(
                        premb,
                        self.modbus,
                        device@,
                        address,
                        value,
                        now_ms as nat,
                        gw,
                    ));
                }
                match wrote {
                    Ok(()) => {
                        let mut m: Vec<char> = Vec::new();
                        push_str_chars(&mut m, "Wrote ");
                        push_str_chars(&mut m, if value { "true" } else { "false" });
                        push_str_chars(&mut m, " to ");
                        push_str_chars(&mut m, device.as_str());
                        push_str_chars(&mut m, ":");
                        push_dec(&mut m, address as u64);
                        match verdict {
                            ConflictResult::Conflict { message } => {
                                push_str_chars(&mut m, " (");
                                push_str_chars(&mut m, message.as_str());
                                push_str_chars(&mut m, ")");
                            },
                            _ => {},
                        }
                        (ActionResult::success_result(ActionType::WriteCoil, chars_to_string(&m)),
                        now_ms)
                    },
                    Err(e) => {
                        let mut m: Vec<char> = Vec::new();
                        push_str_chars(&mut m, "Failed: ");
                        let em = e.message();
                        push_str_chars(&mut m, em.as_str());
                        (ActionResult::failure_result(ActionType::WriteCoil, chars_to_string(&m)),
                        now_ms)
                    },
                }
            },
            ActionType::Alert => {
                let message = match &action.message {
                    Some(m) => self.context.interpolate(m.as_str()),
                    None => {
                        return (
                            ActionResult::failure_result(
                                ActionType::Alert,
                                "Missing message".to_owned(),
                            ),
                            now_ms,
                        );
                    },
                };
                let ghost gob = self.outbox@;
                self.outbox.push(
                    OutboundMessage { topic: "alerts".to_owned(), payload: message.clone() },
                );
                proof {
                    assert(self.outbox@.drop_last() =~= gob);
                }
                let mut m: Vec<char> = Vec::new();
                push_str_chars(&mut m, "Alert sent: ");
                push_str_chars(&mut m, message.as_str());
                (ActionResult::success_result(ActionType::Alert, chars_to_string(&m)), now_ms)
            },
            ActionType::SetVariable => {
                let value = match &action.value {
                    Some(v) => v.duplicate(),
                    None => {
                        return (
                            ActionResult::failure_result(
                                ActionType::SetVariable,
                                "Missing value".to_owned(),
                            ),
                            now_ms,
                        );
                    },
                };
                let mut m: Vec<char> = Vec::new();
                push_str_chars(&mut m, "Set ");
                push_str_chars(&mut m, action.target.as_str());
                push_str_chars(&mut m, " = ");
                crate::value::push_value_chars(&mut m, &value);
                self.context.set_variable(action.target.as_str(), value);
                (ActionResult::success_result(ActionType::SetVariable, chars_to_string(&m)),
                now_ms)
            },
            ActionType::Log => {
                let message = match &action.message {
                    Some(m) => self.context.interpolate(m.as_str()),
                    None => {
                        return (
                            ActionResult::failure_result(
                                ActionType::Log,
                                "Missing message".to_owned(),
                            ),
                            now_ms,
                        );
                    },
                };
                (ActionResult::success_result(ActionType::Log, message), now_ms)
            },
            ActionType::Delay => {
                let delay_ms = match action.delay_ms {
                    Some(d) => d,
                    None => 1000,
                };
                if delay_ms > self.limits.max_delay_ms {
                    let mut m: Vec<char> = Vec::new();
                    push_str_chars(&mut m, "Delay ");
                    push_dec(&mut m, delay_ms);
                    push_str_chars(&mut m, "ms exceeds maximum allowed (");
                    push_dec(&mut m, self.limits.max_delay_ms);
                    push_str_chars(&mut m, "ms)");
                    return (
                        ActionResult::failure_result(ActionType::Delay, chars_to_string(&m)),
                        now_ms,
                    );
                }
                let after = if now_ms > u64::MAX - delay_ms {
                    u64::MAX
                } else {
                    now_ms + delay_ms
                };
                let mut m: Vec<char> = Vec::new();
                push_str_chars(&mut m, "Delayed ");
                push_dec(&mut m, delay_ms);
                push_str_chars(&mut m, "ms");
                (ActionResult::success_result(ActionType::Delay, chars_to_string(&m)), after)
            },
            ActionType::PublishMqtt => {
                let message = match &action.message {
                    Some(m) => self.context.interpolate(m.as_str()),
                    None => {
                        return (
                            ActionResult::failure_result(
                                ActionType::PublishMqtt,
                                "Missing message".to_owned(),
                            ),
                            now_ms,
                        );
                    },
                };
                let topic = if action.target.unicode_len() == 0 {
                    "scripts/output".to_owned()
                } else {
                    self.context.interpolate(action.target.as_str())
                };
                let ghost gob = self.outbox@;
                self.outbox.push(OutboundMessage { topic: topic.clone(), payload: message });
                proof {
                    assert(self.outbox@.drop_last() =~= gob);
                }
                let mut m: Vec<char> = Vec::new();
                push_str_chars(&mut m, "Published to ");
                push_str_chars(&mut m, topic.as_str());
                (ActionResult::success_result(ActionType::PublishMqtt, chars_to_string(&m)),
                now_ms)
            },
            ActionType::CallScript => {
                let callee = match &action.script_id {
                    Some(id) => id.clone(),
                    None => {
                        return (
                            ActionResult::failure_result(
                                ActionType::CallScript,
                                "Missing script_id".to_owned(),
                            ),
                            now_ms,
                        );
                    },
                };
                let ghost prec = *self;
                let inner = self.execute_with_depth(callee.as_str(), depth + 1, now_ms);
                proof {
                    assert(spec_call_witness(inner));
                    assert(spec_execute_rel(
                        prec,
                        *self,
                        callee@,
                        (depth + 1) as u64,
                        now_ms,
                        inner,
                        old(self).limits.max_call_depth,
                    ));
                }
                match inner {
                    Ok(result) => {
                        if result.success {
                            let mut m: Vec<char> = Vec::new();
                            push_str_chars(&mut m, "Called script ");
                            push_str_chars(&mut m, callee.as_str());
                            (
                                ActionResult::success_result(
                                    ActionType::CallScript,
                                    chars_to_string(&m),
                                ),
                                now_ms,
                            )
                        } else {
                            let mut m: Vec<char> = Vec::new();
                            push_str_chars(&mut m, "Script ");
                            push_str_chars(&mut m, callee.as_str());
                            push_str_chars(&mut m, " failed: ");
                            if result.results.len() > 0 {
                                push_str_chars(&mut m, result.results[0].message.as_str());
                            } else {
                                push_str_chars(&mut m, "Unknown error");
                            }
                            (
                                ActionResult::failure_result(
                                    ActionType::CallScript,
                                    chars_to_string(&m),
                                ),
                                now_ms,
                            )
                        }
                    },
                    Err(_) => {
                        let mut m: Vec<char> = Vec::new();
                        push_str_chars(&mut m, "Failed to call script: ");
                        push_str_chars(&mut m, callee.as_str());
                        push_str_chars(&mut m, " not found");
                        (
                            ActionResult::failure_result(
                                ActionType::CallScript,
                                chars_to_string(&m),
                            ),
                            now_ms,
                        )
                    },
                }
            },
            ActionType::Noop => {
                (ActionResult::success_result(ActionType::Noop, "No operation".to_owned()), now_ms)
            },
        }
    }
}

impl ScriptEngine {
    /// Execute a script as a top-level invocation (depth 0); the whole
    /// effect is pinned by [`spec_execute_rel`].
    pub fn execute_script(&mut self, script_id: &str, now_ms: u64) -> (r: Result<
        ExecutionResult,
        EngineError,
    >)
        requires
            old(self).wf(),
        ensures
            final(self).wf(),
            spec_execute_guards(
                *old(self),
                *final(self),
                script_id@,
                0,
                now_ms,
                r,
                old(self).limits.max_call_depth,
            ),
            spec_execute_main(
                *old(self),
                *final(self),
                script_id@,
                0,
                now_ms,
                r,
                old(self).limits.max_call_depth,
            ),
    {
        self.execute_with_depth(script_id, 0, now_ms)
    }

    /// Execute the script `script_id` at nesting depth `depth`, at time
    /// `now_ms`. The whole effect — the depth and rate guards, the
    /// unknown-id error, the condition evaluation, the in-order dispatch of
    /// the action list under the time budget and action quota with the
    /// exact terminal limit marker, the error handlers under the shared
    /// quota, and the recorded outcome — is pinned by [`spec_execute_rel`].
    #[verifier::rlimit(100)]
    #[verifier::spinoff_prover]
    pub fn execute_with_depth(&mut self, script_id: &str, depth: u64, now_ms: u64) -> (r: Result<
        ExecutionResult,
        EngineError,
    >)
        requires
            old(self).wf(),
        ensures
            final(self).wf(),
            spec_execute_guards(
                *old(self),
                *final(self),
                script_id@,
                depth,
                now_ms,
                r,
                old(self).limits.max_call_depth,
            ),
            spec_execute_main(
                *old(self),
                *final(self),
                script_id@,
                depth,
                now_ms,
                r,
                old(self).limits.max_call_depth,
            ),

        decreases old(self).limits.max_call_depth - depth, 2int,
    {
        let ghost pre0 = *self;
        let ghost gmax = self.limits.max_call_depth;
        // Depth guard: protects against unbounded recursion through
        // `call_script`; nothing is consumed or recorded.
        if depth >= self.limits.max_call_depth {
            let msg = depth_msg(self.limits.max_call_depth);
            let mut results: Vec<ActionResult> = Vec::new();
            results.push(ActionResult::failure_result(ActionType::CallScript, msg));
            let res = ExecutionResult {
                script_id: script_id.to_owned(),
                success: false,
                actions_executed: 0,
                actions_failed: 1,
                results,
                duration_ms: 0,
                timestamp: rfc3339_string(now_ms),
            };
            proof {
                assert(spec_execute_main(pre0, *self, script_id@, depth, now_ms, Ok(res), gmax));
            }
            return Ok(res);
        }
        // Rate limit: every invocation, nested or not, charges its own id.
        let accepted = self.rate_limiter.check(script_id, now_ms);
        if !accepted {
            let msg = rate_msg(self.limits.rate_limit_per_minute);
            let mut results: Vec<ActionResult> = Vec::new();
            results.push(ActionResult::failure_result(ActionType::Noop, msg));
            let res = ExecutionResult {
                script_id: script_id.to_owned(),
                success: false,
                actions_executed: 0,
                actions_failed: 1,
                results,
                duration_ms: 0,
                timestamp: rfc3339_string(now_ms),
            };
            proof {
                assert(spec_execute_main(pre0, *self, script_id@, depth, now_ms, Ok(res), gmax));
            }
            return Ok(res);
        }
        let definition: ScriptDefinition = match self.storage.get(script_id) {
            Some(s) => s.definition.duplicate(),
            None => {
                proof {
                    assert(spec_execute_main(
                        pre0,
                        *self,
                        script_id@,
                        depth,
                        now_ms,
                        Err(EngineError::ScriptNotFound),
                        gmax,
                    ));
                }
                return Err(EngineError::ScriptNotFound);
            },
        };
        let ghost gdef = pre0.storage.spec_at(script_id@).definition;
        proof {
            assert(definition@ == gdef);
        }
        self.storage.set_status(script_id, ScriptStatus::Running);
        let ghost prem = *self;
        proof {
            assert(spec_prelude(pre0, prem, script_id@, now_ms));
        }
        // Conditions guard the whole run; a skipped run still counts as a
        // successful one.
        if !self.evaluate_conditions(&definition.conditions) {
            proof {
                assert(definition.conditions@.map_values(|c: Condition| c@) == gdef.conditions);
                assert(!spec_conditions_hold(&pre0.context, gdef.conditions));
            }
            self.storage.update_result(script_id, true, "Conditions not met - skipped", now_ms);
            proof {
                assert(spec_finalize(
                    prem,
                    *self,
                    script_id@,
                    true,
                    "Conditions not met - skipped"@,
                    now_ms,
                ));
            }
            let res = ExecutionResult {
                script_id: script_id.to_owned(),
                success: true,
                actions_executed: 0,
                actions_failed: 0,
                results: Vec::new(),
                duration_ms: 0,
                timestamp: rfc3339_string(now_ms),
            };
            proof {
                assert(spec_execute_main(pre0, *self, script_id@, depth, now_ms, Ok(res), gmax));
            }
            return Ok(res);
        }
        proof {
            assert(definition.conditions@.map_values(|c: Condition| c@) == gdef.conditions);
            assert(spec_conditions_hold(&pre0.context, gdef.conditions));
        }
        let mut exec_ctx = ExecutionContext::new(self.limits, now_ms);
        exec_ctx.call_depth = depth;
        let mut results: Vec<ActionResult> = Vec::new();
        let mut actions_executed: u64 = 0;
        let mut actions_failed: u64 = 0;
        let mut now = now_ms;
        let mut stop_case: u8 = 0;
        let ghost mut g_d: int = 0;
        let ghost mut g_nowd: u64 = now_ms;
        let ghost mut g_rsd: Seq<ActionResult> = Seq::empty();
        let ghost mut gstates: Seq<ScriptEngine> = Seq::empty();
        let ghost mut gtimes: Seq<u64> = Seq::empty();
        let ghost gacts = gdef.actions;
        proof {
            assert(definition.actions@.map_values(|x: Action| x@) == gacts);
        }
        proof {
            gstates = seq![prem];
            gtimes = seq![now_ms];
        }
        let action_count = definition.actions.len();
        let mut i: usize = 0;
        while i < action_count && stop_case == 0
            invariant
                self.wf(),
                self.limits == old(self).limits,
                self.limits == prem.limits,
                prem.limits == pre0.limits,
                gmax == pre0.limits.max_call_depth,
                depth < self.limits.max_call_depth,
                exec_ctx.limits == self.limits,
                exec_ctx.start_ms == now_ms,
                exec_ctx.actions_executed <= self.limits.max_actions_per_run,
                action_count == definition.actions@.len(),
                gacts == definition.actions@.map_values(|x: Action| x@),
                gacts.len() == action_count,
                spec_conditions_hold(&pre0.context, gdef.conditions),
                i <= action_count,
                now >= now_ms,
                actions_executed as int == count_successes(results@),
                actions_failed as int == count_failures(results@),
                actions_executed <= pre0.limits.max_actions_per_run,
                actions_executed + actions_failed <= pre0.limits.max_actions_per_run + 1,
                forall|x: Seq<char>|
                    #[trigger] self.storage.spec_has(x) == pre0.storage.spec_has(x),
                forall|x: Seq<char>|
                    pre0.storage.spec_has(x) ==> (#[trigger] self.storage.spec_at(x)).definition
                        == pre0.storage.spec_at(x).definition,
                forall|x: Seq<char>|
                    pre0.storage.spec_has(x) && (#[trigger] pre0.storage.spec_at(x)).status
                        != ScriptStatus::Paused ==> self.storage.spec_at(x).status
                        != ScriptStatus::Paused,
                self.storage.spec_has(script_id@),
                self.storage.spec_at(script_id@).status != ScriptStatus::Paused,
                stop_case == 0 || stop_case == 1 || stop_case == 2,
                gstates.len() == i + 1 && gtimes.len() == i + 1,
                gstates[0] == prem && gtimes[0] == now_ms,
                gstates.last() == *self && gtimes.last() == now,
                stop_case == 0 ==> exec_ctx.actions_executed == i as u64 && actions_executed
                    + actions_failed == i as u64 && results@.len() == i as int && spec_steps(
                    gstates,
                    gtimes,
                    script_id@,
                    gacts.subrange(0, i as int),
                    depth,
                    now_ms,
                    prem.limits.max_execution_time_ms,
                    prem.limits.max_actions_per_run,
                    0,
                    results@,
                    gmax,
                ),
                stop_case != 0 ==> 0 <= g_d < action_count as int && g_nowd == now
                    && results@.len() == g_rsd.len() + 1 && results@.drop_last() == g_rsd
                    && exec_ctx.actions_executed == g_d as u64 && g_d == i as int && spec_steps(
                    gstates,
                    gtimes,
                    script_id@,
                    gacts.subrange(0, g_d),
                    depth,
                    now_ms,
                    prem.limits.max_execution_time_ms,
                    prem.limits.max_actions_per_run,
                    0,
                    g_rsd,
                    gmax,
                ),
                stop_case == 1 ==> spec_failed_as(
                    results@.last(),
                    ActionType::Noop,
                    "Execution time limit exceeded"@,
                ) && g_nowd as int > now_ms as int + pre0.limits.max_execution_time_ms as int,
                stop_case == 2 ==> spec_failed_as(
                    results@.last(),
                    ActionType::Noop,
                    spec_action_limit_msg(pre0.limits.max_actions_per_run),
                ) && g_nowd as int <= now_ms as int + pre0.limits.max_execution_time_ms as int
                    && g_d >= pre0.limits.max_actions_per_run,
            decreases action_count - i + (if stop_case == 0 {
                1int
            } else {
                0int
            }),
        {
            if exec_ctx.is_time_exceeded(now) {
                proof {
                    g_d = i as int;
                    g_nowd = now;
                    g_rsd = results@;
                }
                stop_case = 1;
                results.push(
                    ActionResult::failure_result(
                        ActionType::Noop,
                        "Execution time limit exceeded".to_owned(),
                    ),
                );
                actions_failed = actions_failed + 1;
                proof {
                    assert(results@.drop_last() =~= g_rsd);
                }
            } else {
                match exec_ctx.record_action(now) {
                    Err(LimitError::ActionLimitExceeded) => {
                        proof {
                            g_d = i as int;
                            g_nowd = now;
                            g_rsd = results@;
                        }
                        stop_case = 2;
                        results.push(
                            ActionResult::failure_result(
                                ActionType::Noop,
                                action_limit_msg(self.limits.max_actions_per_run),
                            ),
                        );
                        actions_failed = actions_failed + 1;
                        proof {
                            assert(results@.drop_last() =~= g_rsd);
                        }
                    },
                    Err(_) => {
                        proof {
                            g_d = i as int;
                            g_nowd = now;
                            g_rsd = results@;
                        }
                        stop_case = 1;
                        results.push(
                            ActionResult::failure_result(
                                ActionType::Noop,
                                "Execution time limit exceeded".to_owned(),
                            ),
                        );
                        actions_failed = actions_failed + 1;
                        proof {
                            assert(results@.drop_last() =~= g_rsd);
                        }
                    },
                    Ok(()) => {
                        let ghost prev = *self;
                        let ghost prevnow = now;
                        let ghost prevrs = results@;
                        let (res_a, now2) = self.dispatch_action(
                            script_id,
                            &definition.actions[i],
                            depth,
                            now,
                        );
                        now = now2;
                        if res_a.success {
                            actions_executed = actions_executed + 1;
                        } else {
                            actions_failed = actions_failed + 1;
                        }
                        results.push(res_a);
                        proof {
                            let prevst = gstates;
                            let prevtm = gtimes;
                            gstates = gstates.push(*self);
                            gtimes = gtimes.push(now2);
                            assert(definition.actions@[i as int]@ == gacts[i as int]);
                            assert(results@.drop_last() =~= prevrs);
                            let cur = gacts.subrange(0, i + 1 as int);
                            assert(cur.drop_last() =~= gacts.subrange(0, i as int));
                            assert(cur.last() == gacts[i as int]);
                            assert(gstates.drop_last() =~= prevst);
                            assert(gtimes.drop_last() =~= prevtm);
                            assert(gstates[i as int] == prev);
                            assert(gtimes[i as int] == prevnow);
                            assert(spec_dispatch(
                                gstates[cur.len() - 1],
                                gstates.last(),
                                script_id@,
                                cur.last(),
                                depth,
                                gtimes[cur.len() - 1],
                                gtimes.last(),
                                results@.last(),
                                gmax,
                            ));
                            assert(spec_steps(
                                gstates,
                                gtimes,
                                script_id@,
                                cur,
                                depth,
                                now_ms,
                                prem.limits.max_execution_time_ms,
                                prem.limits.max_actions_per_run,
                                0,
                                results@,
                                gmax,
                            ));
                        }
                        i = i + 1;
                    },
                }
            }
        }
        proof {
            if stop_case == 0 {
                g_d = action_count as int;
                g_nowd = now;
                g_rsd = results@;
            }
            assert(gacts.subrange(0, action_count as int) =~= gacts);
        }
        let ghost g_rsmain = results@;
        let ghost midsnap = *self;
        let ghost midnow = now;
        let ghost mut g_h: int = 0;
        let ghost mut hst: Seq<ScriptEngine> = Seq::empty();
        let ghost mut htm: Seq<u64> = Seq::empty();
        proof {
            hst = seq![midsnap];
            htm = seq![midnow];
        }
        let err_count = definition.on_error.len();
        let ghost gerr = gdef.on_error;
        proof {
            assert(definition.on_error@.map_values(|x: Action| x@) == gerr);
        }
        // Error handlers share the action quota; their outcomes are
        // reported but do not change the counters.
        if actions_failed > 0 && err_count > 0 {
            let mut hstop: bool = false;
            let mut j: usize = 0;
            while j < err_count && !hstop
                invariant
                    self.wf(),
                    self.limits == old(self).limits,
                    self.limits == prem.limits,
                    prem.limits == pre0.limits,
                    gmax == pre0.limits.max_call_depth,
                    depth < self.limits.max_call_depth,
                    exec_ctx.limits == self.limits,
                    exec_ctx.start_ms == now_ms,
                    exec_ctx.actions_executed <= self.limits.max_actions_per_run,
                    err_count == definition.on_error@.len(),
                    gerr == definition.on_error@.map_values(|x: Action| x@),
                    gerr.len() == err_count,
                    spec_conditions_hold(&pre0.context, gdef.conditions),
                    j <= err_count,
                    now >= now_ms,
                    0 <= g_d,
                    g_h == j as int,
                    exec_ctx.actions_executed as int == g_d + j as int,
                    results@.len() == g_rsmain.len() + j as int,
                    results@.subrange(0, g_rsmain.len() as int) == g_rsmain,
                    hst.len() == j + 1 && htm.len() == j + 1,
                    hst[0] == midsnap && htm[0] == midnow,
                    hst.last() == *self && htm.last() == now,
                    spec_steps(
                        hst,
                        htm,
                        script_id@,
                        gerr.subrange(0, j as int),
                        depth,
                        now_ms,
                        prem.limits.max_execution_time_ms,
                        prem.limits.max_actions_per_run,
                        g_d,
                        results@.skip(g_rsmain.len() as int),
                        gmax,
                    ),
                    hstop ==> now as int > now_ms as int
                        + pre0.limits.max_execution_time_ms as int || g_d + g_h
                        >= pre0.limits.max_actions_per_run,
                    forall|x: Seq<char>|
                        #[trigger] self.storage.spec_has(x) == pre0.storage.spec_has(x),
                    forall|x: Seq<char>|
                        pre0.storage.spec_has(x) ==> (#[trigger] self.storage.spec_at(
                            x,
                        )).definition == pre0.storage.spec_at(x).definition,
                    forall|x: Seq<char>|
                        pre0.storage.spec_has(x) && (#[trigger] pre0.storage.spec_at(x)).status
                            != ScriptStatus::Paused ==> self.storage.spec_at(x).status
                            != ScriptStatus::Paused,
                    self.storage.spec_has(script_id@),
                    self.storage.spec_at(script_id@).status != ScriptStatus::Paused,
                decreases err_count - j + (if hstop {
                    0int
                } else {
                    1int
                }),
            {
                match exec_ctx.record_action(now) {
                    Err(_) => {
                        hstop = true;
                    },
                    Ok(()) => {
                        let ghost prev = *self;
                        let ghost prevnow = now;
                        let ghost prevrs = results@;
                        let (res_a, now2) = self.dispatch_action(
                            script_id,
                            &definition.on_error[j],
                            depth,
                            now,
                        );
                        now = now2;
                        results.push(res_a);
                        proof {
                            g_h = j + 1 as int;
                            let prevst = hst;
                            let prevtm = htm;
                            hst = hst.push(*self);
                            htm = htm.push(now2);
                            assert(definition.on_error@[j as int]@ == gerr[j as int]);
                            assert(results@.subrange(0, g_rsmain.len() as int) =~= g_rsmain);
                            let hrs = results@.skip(g_rsmain.len() as int);
                            assert(hrs =~= prevrs.skip(g_rsmain.len() as int).push(res_a));
                            assert(hrs.drop_last() =~= prevrs.skip(g_rsmain.len() as int));
                            let cur = gerr.subrange(0, j + 1 as int);
                            assert(cur.drop_last() =~= gerr.subrange(0, j as int));
                            assert(cur.last() == gerr[j as int]);
                            assert(hst.drop_last() =~= prevst);
                            assert(htm.drop_last() =~= prevtm);
                            assert(hst[j as int] == prev);
                            assert(htm[j as int] == prevnow);
                            assert(spec_dispatch(
                                hst[cur.len() - 1],
                                hst.last(),
                                script_id@,
                                cur.last(),
                                depth,
                                htm[cur.len() - 1],
                                htm.last(),
                                hrs.last(),
                                gmax,
                            ));
                            assert(spec_steps(
                                hst,
                                htm,
                                script_id@,
                                cur,
                                depth,
                                now_ms,
                                prem.limits.max_execution_time_ms,
                                prem.limits.max_actions_per_run,
                                g_d,
                                hrs,
                                gmax,
                            ));
                        }
                        j = j + 1;
                    },
                }
            }
        }
        let ghost g_rsh = results@.skip(g_rsmain.len() as int);
        let ghost mid2snap = *self;
        proof {
            assert(results@ =~= g_rsmain + g_rsh);
            if !(actions_failed > 0 && err_count > 0) {
                assert(g_rsh =~= Seq::<ActionResult>::empty());
            }
        }
        let success = actions_failed == 0;
        let result_msg: String = if success {
            let mut m: Vec<char> = Vec::new();
            push_str_chars(&mut m, "Completed ");
            push_dec(&mut m, actions_executed);
            push_str_chars(&mut m, " actions");
            chars_to_string(&m)
        } else {
            let mut m: Vec<char> = Vec::new();
            push_dec(&mut m, actions_failed);
            push_str_chars(&mut m, " actions failed");
            chars_to_string(&m)
        };
        self.storage.update_result(script_id, success, result_msg.as_str(), now);
        let duration = now - now_ms;
        let res = ExecutionResult {
            script_id: script_id.to_owned(),
            success,
            actions_executed,
            actions_failed,
            results,
            duration_ms: duration,
            timestamp: rfc3339_string(now),
        };
        proof {
            assert(spec_finalize(
                mid2snap,
                *self,
                script_id@,
                success,
                if success {
                    "Completed "@ + spec_dec(actions_executed as nat) + " actions"@
                } else {
                    spec_dec(actions_failed as nat) + " actions failed"@
                },
                now,
            ));
            assert(spec_main_chain(
                prem,
                *self,
                script_id@,
                gdef,
                depth,
                now_ms,
                pre0.limits,
                Ok(res),
                g_d,
                gstates,
                gtimes,
                g_rsd,
                g_rsmain,
                hst,
                htm,
                g_rsh,
                g_h,
                gmax,
            ));
            assert(spec_conditions_hold(&pre0.context, gdef.conditions));
            assert(spec_chain_witness(
                g_d,
                gstates,
                gtimes,
                g_rsd,
                g_rsmain,
                hst,
                htm,
                g_rsh,
                g_h,
            ));
            assert(spec_execute_main(pre0, *self, script_id@, depth, now_ms, Ok(res), gmax));
        }
        Ok(res)
    }
}

impl ScriptEngine {
    /// One engine tick at time `now_ms`: refresh the time fields and the
    /// GPIO snapshot in the context (sensor readings arrive between ticks
    /// through [`Self::set_sensor`]), clear the per-tick conflict table, ask
    /// the trigger manager which runnable scripts fire against this tick's
    /// context and incoming MQTT topics, and execute each fired script once
    /// (in storage order, each at depth 0). Returns the execution results
    /// in that order: the runs are pinned by [`spec_run_chain`], and the
    /// fired list is a storage-order selection of the runnable scripts
    /// ([`spec_fired_from`]; by
    /// [`crate::storage::lemma_active_ids_unique`] its ids are pairwise
    /// distinct).
    pub fn tick(&mut self, now_ms: u64, mqtt_events: &Vec<String>) -> (r: Vec<ExecutionResult>)
        requires
            old(self).wf(),
            now_ms <= 9_000_000_000_000_000,
        ensures
            final(self).wf(),
            final(self).limits == old(self).limits,
            exists|states: Seq<ScriptEngine>, ids: Seq<Seq<char>>|
                {
                    &&& #[trigger] spec_runs_witness(states, ids, r@)
                    &&& states.len() > 0
                    &&& states[0].limits == old(self).limits
                    &&& states[0].storage == old(self).storage
                    &&& states[0].gpio == old(self).gpio
                    &&& states[0].modbus == old(self).modbus
                    &&& states[0].outbox == old(self).outbox
                    &&& states[0].rate_limiter == old(self).rate_limiter
                    &&& states.last() == *final(self)
                    &&& spec_run_chain(states, ids, r@, now_ms, old(self).limits.max_call_depth)
                    &&& spec_fired_from(ids, old(self).storage.spec_active())
                },
    {
        let ghost gmax = self.limits.max_call_depth;
        let ghost gact = self.storage.spec_active();
        self.context.refresh_time(now_ms);
        self.conflict.reset();
        let gpio_states = self.gpio.read_all();
        let gn = gpio_states.len();
        let mut gi: usize = 0;
        while gi < gn
            invariant
                self.wf(),
                self.limits == old(self).limits,
                self.storage == old(self).storage,
                self.gpio == old(self).gpio,
                self.modbus == old(self).modbus,
                self.outbox == old(self).outbox,
                self.rate_limiter == old(self).rate_limiter,
                gn == gpio_states@.len(),
                gi <= gn,
            decreases gn - gi,
        {
            let (pin, level) = gpio_states[gi];
            self.context.set_gpio(pin, level);
            gi = gi + 1;
        }
        // Pass one: decide which scripts fire, against one context
        // snapshot.
        let mut fired: Vec<String> = Vec::new();
        let ghost mut gidx: Seq<int> = Seq::empty();
        let active = self.storage.get_active();
        let mut pending: Vec<(String, Vec<crate::model::Trigger>)> = Vec::new();
        let an = active.len();
        let mut ai: usize = 0;
        while ai < an
            invariant
                self.storage == old(self).storage,
                gact == self.storage.spec_active(),
                an == active@.len(),
                an == gact.len(),
                forall|k: int| 0 <= k < an ==> (#[trigger] active@[k])@ == gact[k],
                ai <= an,
                pending@.len() == ai,
                forall|k: int| 0 <= k < ai ==> (#[trigger] pending@[k]).0@ == gact[k].definition.id,
            decreases an - ai,
        {
            let s = active[ai];
            pending.push((s.definition.id.clone(), crate::model::dup_triggers(&s.definition.triggers)));
            ai = ai + 1;
        }
        let pn = pending.len();
        let mut pi: usize = 0;
        while pi < pn
            invariant
                self.wf(),
                self.limits == old(self).limits,
                self.storage == old(self).storage,
                self.gpio == old(self).gpio,
                self.modbus == old(self).modbus,
                self.outbox == old(self).outbox,
                self.rate_limiter == old(self).rate_limiter,
                gact == self.storage.spec_active(),
                pn == pending@.len(),
                pn == gact.len(),
                forall|k: int| 0 <= k < pn ==> (#[trigger] pending@[k]).0@ == gact[k].definition.id,
                pi <= pn,
                gidx.len() == fired@.len(),
                forall|k: int| 0 <= k < gidx.len() ==> 0 <= #[trigger] gidx[k] < pi,
                forall|k: int, l: int| 0 <= k < l < gidx.len() ==> gidx[k] < gidx[l],
                forall|k: int|
                    0 <= k < gidx.len() ==> (#[trigger] fired@[k])@ == gact[gidx[k]].definition.id,
                forall|k: int|
                    0 <= k < fired@.len() ==> old(self).storage.spec_has((#[trigger] fired@[k])@),
            decreases pn - pi,
        {
            let (ref id, ref triggers) = pending[pi];
            let tn = triggers.len();
            let mut ti: usize = 0;
            let mut any = false;
            while ti < tn && !any
                invariant
                    self.wf(),
                    self.limits == old(self).limits,
                    self.storage == old(self).storage,
                    self.gpio == old(self).gpio,
                    self.modbus == old(self).modbus,
                    self.outbox == old(self).outbox,
                    self.rate_limiter == old(self).rate_limiter,
                    tn == triggers@.len(),
                    ti <= tn,
                decreases tn - ti,
            {
                if self.trigger_manager.check_trigger(
                    id.as_str(),
                    ti,
                    &triggers[ti],
                    &self.context,
                    now_ms,
                    mqtt_events,
                ) {
                    any = true;
                }
                ti = ti + 1;
            }
            if any {
                let ghost prevf = fired@;
                fired.push(id.clone());
                proof {
                    gidx = gidx.push(pi as int);
                    assert(fired@.drop_last() =~= prevf);
                    crate::storage::lemma_active_has(&self.storage, pi as int);
                }
            }
            pi = pi + 1;
        }
        // Pass two: run each fired script once, in storage order.
        let ghost snap = *self;
        let ghost gids = fired@.map_values(|s: String| s@);
        let ghost mut gstates: Seq<ScriptEngine> = Seq::empty();
        proof {
            gstates = seq![snap];
        }
        let mut results: Vec<ExecutionResult> = Vec::new();
        let fnn = fired.len();
        let mut fi: usize = 0;
        while fi < fnn
            invariant
                self.wf(),
                self.limits == old(self).limits,
                gmax == old(self).limits.max_call_depth,
                fnn == fired@.len(),
                gids == fired@.map_values(|s: String| s@),
                gids.len() == fnn,
                fi <= fnn,
                forall|k: int|
                    0 <= k < gids.len() ==> snap.storage.spec_has(#[trigger] gids[k]),
                forall|x: Seq<char>|
                    #[trigger] self.storage.spec_has(x) == snap.storage.spec_has(x),
                results@.len() == fi,
                gstates.len() == fi + 1,
                gstates[0] == snap,
                gstates.last() == *self,
                spec_run_chain(gstates, gids.subrange(0, fi as int), results@, now_ms, gmax),
            decreases fnn - fi,
        {
            let ghost prevself = *self;
            let ghost prevrs = results@;
            let ghost prevst = gstates;
            let outcome = self.execute_with_depth(fired[fi].as_str(), 0, now_ms);
            match outcome {
                Ok(res) => {
                    proof {
                        assert(spec_execute_rel(
                            prevself,
                            *self,
                            gids[fi as int],
                            0,
                            now_ms,
                            Ok(res),
                            gmax,
                        ));
                    }
                    results.push(res);
                    proof {
                        gstates = gstates.push(*self);
                        let cur = gids.subrange(0, fi + 1 as int);
                        assert(cur.drop_last() =~= gids.subrange(0, fi as int));
                        assert(cur.last() == gids[fi as int]);
                        assert(gstates.drop_last() =~= prevst);
                        assert(results@.drop_last() =~= prevrs);
                        assert(spec_run_chain(gstates, cur, results@, now_ms, gmax));
                    }
                },
                Err(_) => {
                    proof {
                        assert(prevself.storage.spec_has(gids[fi as int]));
                        assert(false);
                    }
                },
            }
            fi = fi + 1;
        }
        proof {
            assert(gids.subrange(0, fnn as int) =~= gids);
            assert(spec_runs_witness(gstates, gids, results@));
            assert(spec_idx_witness(gidx));
            assert(spec_fired_from(gids, gact));
        }
        results
    }

    /// Run every runnable script that carries a startup trigger, once, in
    /// storage order, at depth 0 (engine initialisation).
    pub fn run_startup_scripts(&mut self, now_ms: u64)
        requires
            old(self).wf(),
        ensures
            final(self).wf(),
            final(self).limits == old(self).limits,
            exists|states: Seq<ScriptEngine>, outs: Seq<ExecutionResult>|
                {
                    &&& #[trigger] spec_runs_witness(
                        states,
                        spec_startup_ids(old(self).storage.spec_active()),
                        outs,
                    )
                    &&& states.len() > 0
                    &&& states[0] == *old(self)
                    &&& states.last() == *final(self)
                    &&& spec_run_chain(
                        states,
                        spec_startup_ids(old(self).storage.spec_active()),
                        outs,
                        now_ms,
                        old(self).limits.max_call_depth,
                    )
                },
    {
        let ghost gmax = self.limits.max_call_depth;
        let ghost gact = self.storage.spec_active();
        let active = self.storage.get_active();
        let mut ids: Vec<String> = Vec::new();
        let an = active.len();
        let mut ai: usize = 0;
        while ai < an
            invariant
                self.storage == old(self).storage,
                gact == self.storage.spec_active(),
                an == active@.len(),
                an == gact.len(),
                forall|k: int| 0 <= k < an ==> (#[trigger] active@[k])@ == gact[k],
                ai <= an,
                ids@.map_values(|s: String| s@) == spec_startup_ids(gact.subrange(0, ai as int)),
                forall|k: int|
                    0 <= k < ids@.len() ==> old(self).storage.spec_has((#[trigger] ids@[k])@),
            decreases an - ai,
        {
            let s = active[ai];
            let tn = s.definition.triggers.len();
            let mut ti: usize = 0;
            let mut has_startup = false;
            while ti < tn
                invariant
                    tn == s.definition.triggers@.len(),
                    ti <= tn,
                    has_startup == (exists|t: int|
                        0 <= t < ti && s.definition.triggers@[t]@
                            == crate::model::TriggerV::Startup),
                decreases tn - ti,
            {
                match s.definition.triggers[ti] {
                    crate::model::Trigger::Startup => {
                        has_startup = true;
                    },
                    _ => {},
                }
                ti = ti + 1;
            }
            proof {
                let ts = gact[ai as int].definition.triggers;
                assert(ts.len() == tn);
                assert(forall|t: int|
                    0 <= t < tn ==> ts[t] == (#[trigger] s.definition.triggers@[t])@);
                assert(has_startup == spec_has_startup(ts));
            }
            let ghost sub1 = gact.subrange(0, ai + 1 as int);
            let ghost sub0 = gact.subrange(0, ai as int);
            proof {
                assert(sub1.drop_last() =~= sub0);
                assert(sub1.last() == gact[ai as int]);
                reveal(Seq::filter);
            }
            if has_startup {
                let ghost previds = ids@;
                ids.push(s.definition.id.clone());
                proof {
                    assert(ids@.drop_last() =~= previds);
                    crate::storage::lemma_active_has(&self.storage, ai as int);
                    assert(spec_startup_ids(sub1) =~= spec_startup_ids(sub0).push(
                        gact[ai as int].definition.id,
                    ));
                    assert(ids@.map_values(|s: String| s@) =~= previds.map_values(
                        |s: String| s@,
                    ).push(gact[ai as int].definition.id));
                }
            } else {
                proof {
                    assert(spec_startup_ids(sub1) =~= spec_startup_ids(sub0));
                }
            }
            ai = ai + 1;
        }
        proof {
            assert(gact.subrange(0, an as int) =~= gact);
        }
        let ghost gids = ids@.map_values(|s: String| s@);
        let ghost mut gstates: Seq<ScriptEngine> = Seq::empty();
        let ghost mut gouts: Seq<ExecutionResult> = Seq::empty();
        proof {
            gstates = seq![*self];
        }
        let idn = ids.len();
        let mut ii: usize = 0;
        while ii < idn
            invariant
                self.wf(),
                self.limits == old(self).limits,
                gmax == old(self).limits.max_call_depth,
                idn == ids@.len(),
                gids == ids@.map_values(|s: String| s@),
                gids.len() == idn,
                ii <= idn,
                forall|k: int|
                    0 <= k < gids.len() ==> old(self).storage.spec_has(#[trigger] gids[k]),
                forall|x: Seq<char>|
                    #[trigger] self.storage.spec_has(x) == old(self).storage.spec_has(x),
                gouts.len() == ii,
                gstates.len() == ii + 1,
                gstates[0] == *old(self),
                gstates.last() == *self,
                spec_run_chain(gstates, gids.subrange(0, ii as int), gouts, now_ms, gmax),
            decreases idn - ii,
        {
            let ghost prevself = *self;
            let ghost prevst = gstates;
            let ghost prevout = gouts;
            let outcome = self.execute_with_depth(ids[ii].as_str(), 0, now_ms);
            match outcome {
                Ok(res) => {
                    proof {
                        assert(spec_execute_rel(
                            prevself,
                            *self,
                            gids[ii as int],
                            0,
                            now_ms,
                            Ok(res),
                            gmax,
                        ));
                        gstates = gstates.push(*self);
                        gouts = gouts.push(res);
                        let cur = gids.subrange(0, ii + 1 as int);
                        assert(cur.drop_last() =~= gids.subrange(0, ii as int));
                        assert(cur.last() == gids[ii as int]);
                        assert(gstates.drop_last() =~= prevst);
                        assert(gouts.drop_last() =~= prevout);
                        assert(spec_run_chain(gstates, cur, gouts, now_ms, gmax));
                    }
                },
                Err(_) => {
                    proof {
                        assert(prevself.storage.spec_has(gids[ii as int]));
                        assert(false);
                    }
                },
            }
            ii = ii + 1;
        }
        proof {
            assert(gids.subrange(0, idn as int) =~= gids);
            assert(gids == spec_startup_ids(gact));
            assert(spec_runs_witness(gstates, gids, gouts));
        }
    }

    /// Deploy (add or replace) a script from its definition.
    pub fn add_script(&mut self, definition: ScriptDefinition, now_ms: u64)
        requires
            old(self).wf(),
        ensures
            final(self).wf(),
            final(self).limits == old(self).limits,
            final(self).storage.spec_has(definition@.id),
            final(self).storage.spec_at(definition@.id) == ScriptStorage::spec_fresh(
                definition@,
                now_ms as nat,
            ),
    {
        self.storage.add_script(definition, now_ms);
    }

    /// Delete a script and forget its trigger state. Returns whether it
    /// existed.
    pub fn delete_script(&mut self, id: &str) -> (r: bool)
        requires
            old(self).wf(),
        ensures
            final(self).wf(),
            final(self).limits == old(self).limits,
            r == old(self).storage.spec_has(id@),
            !final(self).storage.spec_has(id@),
    {
        self.trigger_manager.reset_script(id);
        self.storage.delete(id)
    }

    /// Enable a script (clearing an `Error` latch). Returns whether it
    /// existed.
    pub fn enable_script(&mut self, id: &str, now_ms: u64) -> (r: bool)
        requires
            old(self).wf(),
        ensures
            final(self).wf(),
            final(self).limits == old(self).limits,
            r == old(self).storage.spec_has(id@),
            old(self).storage.spec_has(id@) ==> final(self).storage.spec_at(id@).status
                == ScriptStatus::Active && final(self).storage.spec_at(
                id@,
            ).definition.enabled,
            old(self).storage.spec_has(id@) && old(self).storage.spec_at(
                id@,
            ).definition.enabled ==> final(self).storage.spec_at(id@).definition == old(
                self,
            ).storage.spec_at(id@).definition,
    {
        self.storage.enable(id, now_ms)
    }

    /// Disable a script and forget its trigger state. Returns whether it
    /// existed.
    pub fn disable_script(&mut self, id: &str, now_ms: u64) -> (r: bool)
        requires
            old(self).wf(),
        ensures
            final(self).wf(),
            final(self).limits == old(self).limits,
            r == old(self).storage.spec_has(id@),
            old(self).storage.spec_has(id@) ==> final(self).storage.spec_at(id@).status
                == ScriptStatus::Paused && !final(self).storage.spec_at(
                id@,
            ).definition.enabled,
    {
        self.trigger_manager.reset_script(id);
        self.storage.disable(id, now_ms)
    }

    /// Every stored script, in storage order.
    pub fn list_scripts(&self) -> (r: Vec<&crate::storage::Script>)
        ensures
            r@.len() == self.storage.spec_len(),
            forall|i: int| 0 <= i < r@.len() ==> r@[i]@ == self.storage.spec_seq()[i],
    {
        self.storage.get_all()
    }

    /// The script under `id`, if any.
    pub fn get_script(&self, id: &str) -> (r: Option<&crate::storage::Script>)
        requires
            self.wf(),
        ensures
            match r {
                Some(s) => self.storage.spec_get(id@) == Some(s@),
                None => self.storage.spec_get(id@) is None,
            },
    {
        self.storage.get(id)
    }

    /// Number of stored scripts.
    pub fn script_count(&self) -> (r: usize)
        ensures
            r as nat == self.storage.spec_len(),
    {
        self.storage.count()
    }

    /// Feed one sensor reading into the context (the telemetry path).
    pub fn set_sensor(&mut self, name: &str, value: Value)
        requires
            old(self).wf(),
        ensures
            final(self).wf(),
            final(self).limits == old(self).limits,
            final(self).context.spec_sensor(name@) == Some(value@),
    {
        self.context.set_sensor(name, value);
    }

    /// Configure one GPIO pin on the actor, starting low; re-configuring an
    /// existing pin leaves its level alone. Nothing else moves.
    pub fn configure_gpio_pin(&mut self, pin: u8)
        requires
            old(self).wf(),
        ensures
            final(self).wf(),
            final(self).limits == old(self).limits,
            final(self).storage == old(self).storage,
            final(self).context == old(self).context,
            final(self).trigger_manager == old(self).trigger_manager,
            final(self).rate_limiter == old(self).rate_limiter,
            final(self).conflict == old(self).conflict,
            final(self).modbus == old(self).modbus,
            final(self).outbox == old(self).outbox,
            final(self).gpio.spec_has(pin),
            final(self).gpio.spec_level(pin) == if old(self).gpio.spec_has(pin) {
                old(self).gpio.spec_level(pin)
            } else {
                false
            },
            forall|p: u8|
                p != pin ==> #[trigger] final(self).gpio.spec_has(p) == old(self).gpio.spec_has(p),
            forall|p: u8|
                p != pin && old(self).gpio.spec_has(p) ==> #[trigger] final(self).gpio.spec_level(
                    p,
                ) == old(self).gpio.spec_level(p),
    {
        self.gpio.init_pin(pin);
    }

    /// Configure one Modbus device with a fresh closed breaker, no fault
    /// and empty register and coil images; re-adding an existing name is a
    /// no-op. Other devices and everything else stay as they were.
    pub fn add_modbus_device(&mut self, name: &str, failure_threshold: u32, recovery_timeout_ms: u64)
        requires
            old(self).wf(),
            failure_threshold < 0xffff_ffff,
        ensures
            final(self).wf(),
            final(self).limits == old(self).limits,
            final(self).storage == old(self).storage,
            final(self).context == old(self).context,
            final(self).trigger_manager == old(self).trigger_manager,
            final(self).rate_limiter == old(self).rate_limiter,
            final(self).conflict == old(self).conflict,
            final(self).gpio == old(self).gpio,
            final(self).outbox == old(self).outbox,
            final(self).modbus.spec_has_device(name@),
            !old(self).modbus.spec_has_device(name@) ==> final(self).modbus.spec_breaker(name@)
                == (crate::breaker::CbModel {
                state: crate::breaker::BreakerState::Closed,
                failures: 0,
                successes: 0,
                last_failure_ms: 0,
                failure_threshold: failure_threshold as nat,
                success_threshold: 2,
                recovery_timeout_ms: recovery_timeout_ms as nat,
            }) && final(self).modbus.spec_fault(name@) is None && (forall|a: u16|
                #[trigger] final(self).modbus.spec_reg(name@, a) is None
                    && #[trigger] final(self).modbus.spec_coil(name@, a) is None),
            old(self).modbus.spec_has_device(name@) ==> final(self).modbus == old(self).modbus,
            forall|n: Seq<char>|
                n != name@ ==> #[trigger] final(self).modbus.spec_has_device(n) == old(
                    self,
                ).modbus.spec_has_device(n),
            forall|n: Seq<char>|
                n != name@ && old(self).modbus.spec_has_device(n) ==> #[trigger] final(self).modbus.spec_breaker(n) == old(self).modbus.spec_breaker(n) && final(self).modbus.spec_fault(n) == old(self).modbus.spec_fault(n),
            forall|n: Seq<char>, a: u16|
                n != name@ && old(self).modbus.spec_has_device(n) ==> #[trigger] final(self).modbus.spec_reg(n, a) == old(self).modbus.spec_reg(n, a) && #[trigger] final(self).modbus.spec_coil(n, a) == old(self).modbus.spec_coil(n, a),
    {
        self.modbus.add_device(name, failure_threshold, recovery_timeout_ms);
    }

    /// Inject or clear a simulated fault on a Modbus device: while set,
    /// writes to the device fail with its message and count against the
    /// breaker. Returns whether the device exists; breakers, images and
    /// every other device stay as they were.
    pub fn set_device_fault(&mut self, name: &str, fault: Option<String>) -> (r: bool)
        requires
            old(self).wf(),
        ensures
            final(self).wf(),
            final(self).limits == old(self).limits,
            final(self).storage == old(self).storage,
            final(self).context == old(self).context,
            final(self).trigger_manager == old(self).trigger_manager,
            final(self).rate_limiter == old(self).rate_limiter,
            final(self).conflict == old(self).conflict,
            final(self).gpio == old(self).gpio,
            final(self).outbox == old(self).outbox,
            r == old(self).modbus.spec_has_device(name@),
            forall|n: Seq<char>|
                #[trigger] final(self).modbus.spec_has_device(n) == old(
                    self,
                ).modbus.spec_has_device(n),
            old(self).modbus.spec_has_device(name@) ==> final(self).modbus.spec_fault(name@)
                == (match fault {
                Some(ref m) => Some(m@),
                None => None::<Seq<char>>,
            }),
            old(self).modbus.spec_has_device(name@) ==> final(self).modbus.spec_breaker(name@)
                == old(self).modbus.spec_breaker(name@),
            forall|a: u16|
                old(self).modbus.spec_has_device(name@) ==> #[trigger] final(self).modbus.spec_reg(
                    name@,
                    a,
                ) == old(self).modbus.spec_reg(name@, a) && #[trigger] final(self).modbus.spec_coil(name@, a) == old(self).modbus.spec_coil(name@, a),
            forall|n: Seq<char>|
                n != name@ && old(self).modbus.spec_has_device(n) ==> #[trigger] final(self).modbus.spec_breaker(n) == old(self).modbus.spec_breaker(n) && final(self).modbus.spec_fault(n) == old(self).modbus.spec_fault(n),
            forall|n: Seq<char>, a: u16|
                n != name@ && old(self).modbus.spec_has_device(n) ==> #[trigger] final(self).modbus.spec_reg(n, a) == old(self).modbus.spec_reg(n, a) && #[trigger] final(self).modbus.spec_coil(n, a) == old(self).modbus.spec_coil(n, a),
    {
        self.modbus.set_fault(name, fault)
    }

    /// Take every pending outbound message, leaving the outbox empty.
    pub fn drain_outbox(&mut self) -> (r: Vec<OutboundMessage>)
        requires
            old(self).wf(),
        ensures
            final(self).wf(),
            final(self).limits == old(self).limits,
            final(self).outbox@.len() == 0,
            r@ == old(self).outbox@,
    {
        let r = self.outbox.split_off(0);
        proof {
            assert(r@ =~= old(self).outbox@);
            assert(self.outbox@ =~= old(self).outbox@.subrange(0, 0));
        }
        r
    }
}

// ---------------------------------------------------------------------------
// Message texts.
// ---------------------------------------------------------------------------

/// "Max call depth (N) exceeded".
pub open spec fn spec_depth_msg(max: u64) -> Seq<char> {
    "Max call depth ("@ + spec_dec(max as nat) + ") exceeded"@
}

/// "Rate limit exceeded (N/min)".
pub open spec fn spec_rate_msg(limit: u64) -> Seq<char> {
    "Rate limit exceeded ("@ + spec_dec(limit as nat) + "/min)"@
}

/// "Action limit (N) exceeded".
pub open spec fn spec_action_limit_msg(max: u64) -> Seq<char> {
    "Action limit ("@ + spec_dec(max as nat) + ") exceeded"@
}

fn depth_msg(max: u64) -> (r: String)
    ensures
        r@ == spec_depth_msg(max),
{
    let mut m: Vec<char> = Vec::new();
    push_str_chars(&mut m, "Max call depth (");
    push_dec(&mut m, max);
    push_str_chars(&mut m, ") exceeded");
    chars_to_string(&m)
}

fn rate_msg(limit: u64) -> (r: String)
    ensures
        r@ == spec_rate_msg(limit),
{
    let mut m: Vec<char> = Vec::new();
    push_str_chars(&mut m, "Rate limit exceeded (");
    push_dec(&mut m, limit);
    push_str_chars(&mut m, "/min)");
    chars_to_string(&m)
}

fn action_limit_msg(max: u64) -> (r: String)
    ensures
        r@ == spec_action_limit_msg(max),
{
    let mut m: Vec<char> = Vec::new();
    push_str_chars(&mut m, "Action limit (");
    push_dec(&mut m, max);
    push_str_chars(&mut m, ") exceeded");
    chars_to_string(&m)
}

} // verus!
