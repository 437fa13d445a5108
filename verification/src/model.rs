//! The script data model: definitions, triggers, conditions and actions.
//!
//! A script definition is a declarative record — triggers decide when it
//! runs, conditions guard the run, actions say what it does. Each type has a
//! mathematical view (`…V`) over sequences and plain values; contracts
//! throughout the crate speak of those views.

use vstd::prelude::*;

use crate::value::{ComparisonOperator, Value, ValueV};

verus! {

/// A boolean predicate over the context: `source op value`.
pub struct Condition {
    pub source: String,
    pub operator: ComparisonOperator,
    pub value: Value,
}

/// The view of a condition.
pub struct ConditionV {
    pub source: Seq<char>,
    pub operator: ComparisonOperator,
    pub value: ValueV,
}

impl View for Condition {
    type V = ConditionV;

    open spec fn view(&self) -> ConditionV {
        ConditionV { source: self.source@, operator: self.operator, value: self.value@ }
    }
}

impl Condition {
    /// An exact copy of this condition.
    pub fn duplicate(&self) -> (r: Condition)
        ensures
            r@ == self@,
    {
        Condition {
            source: self.source.clone(),
            operator: self.operator,
            value: self.value.duplicate(),
        }
    }
}

/// The kind of an action.
#[derive(Clone, Copy, PartialEq, Eq, Structural, Debug)]
pub enum ActionType {
    SetGpio,
    WriteModbus,
    WriteCoil,
    Alert,
    SetVariable,
    Log,
    Delay,
    PublishMqtt,
    CallScript,
    Noop,
}

/// Severity of an alert action.
#[derive(Clone, Copy, PartialEq, Eq, Structural, Debug)]
pub enum AlertLevel {
    Info,
    Warning,
    Critical,
}

/// One side-effecting step of a script. Which fields matter depends on
/// `action_type`; every action may carry an inline guard `condition`.
pub struct Action {
    pub action_type: ActionType,
    /// Pin number, variable name or topic, depending on the kind.
    pub target: String,
    /// Modbus device name for register/coil writes.
    pub device: Option<String>,
    /// Modbus register or coil address.
    pub address: Option<u16>,
    /// The value to write or store.
    pub value: Option<Value>,
    /// Message text for alert/log/publish actions.
    pub message: Option<String>,
    /// Alert severity.
    pub level: Option<AlertLevel>,
    /// Duration of a delay action.
    pub delay_ms: Option<u64>,
    /// Callee of a `call_script` action.
    pub script_id: Option<String>,
    /// Inline guard: a false guard skips the action.
    pub condition: Option<Condition>,
}

/// The view of an action.
pub struct ActionV {
    pub action_type: ActionType,
    pub target: Seq<char>,
    pub device: Option<Seq<char>>,
    pub address: Option<u16>,
    pub value: Option<ValueV>,
    pub message: Option<Seq<char>>,
    pub level: Option<AlertLevel>,
    pub delay_ms: Option<u64>,
    pub script_id: Option<Seq<char>>,
    pub condition: Option<ConditionV>,
}

impl View for Action {
    type V = ActionV;

    open spec fn view(&self) -> ActionV {
        ActionV {
            action_type: self.action_type,
            target: self.target@,
            device: match self.device {
                Some(ref d) => Some(d@),
                None => None,
            },
            address: self.address,
            value: match self.value {
                Some(ref v) => Some(v@),
                None => None,
            },
            message: match self.message {
                Some(ref m) => Some(m@),
                None => None,
            },
            level: self.level,
            delay_ms: self.delay_ms,
            script_id: match self.script_id {
                Some(ref s) => Some(s@),
                None => None,
            },
            condition: match self.condition {
                Some(ref c) => Some(c@),
                None => None,
            },
        }
    }
}

impl Action {
    /// A bare action of the given kind, all optional fields empty.
    pub fn of_type(action_type: ActionType) -> (r: Action)
        ensures
            r@ == (ActionV {
                action_type,
                target: Seq::<char>::empty(),
                device: None,
                address: None,
                value: None,
                message: None,
                level: None,
                delay_ms: None,
                script_id: None,
                condition: None,
            }),
    {
        let r = Action {
            action_type,
            target: String::new(),
            device: None,
            address: None,
            value: None,
            message: None,
            level: None,
            delay_ms: None,
            script_id: None,
            condition: None,
        };
        r
    }

    /// An exact copy of this action.
    pub fn duplicate(&self) -> (r: Action)
        ensures
            r@ == self@,
    {
        Action {
            action_type: self.action_type,
            target: self.target.clone(),
            device: match &self.device {
                Some(d) => Some(d.clone()),
                None => None,
            },
            address: self.address,
            value: match &self.value {
                Some(v) => Some(v.duplicate()),
                None => None,
            },
            message: match &self.message {
                Some(m) => Some(m.clone()),
                None => None,
            },
            level: self.level,
            delay_ms: self.delay_ms,
            script_id: match &self.script_id {
                Some(s) => Some(s.clone()),
                None => None,
            },
            condition: match &self.condition {
                Some(c) => Some(c.duplicate()),
                None => None,
            },
        }
    }
}

/// Direction an edge trigger reacts to.
#[derive(Clone, Copy, PartialEq, Eq, Structural, Debug)]
pub enum EdgeDirection {
    Rising,
    Falling,
    Both,
}

/// A firing rule for a script.
pub enum Trigger {
    /// Fires once per engine start.
    Startup,
    /// Fires every `interval_ms` milliseconds (0 means every tick).
    Periodic { interval_ms: u64 },
    /// Fires once the comparison has held continuously for `debounce_ms`.
    Threshold { source: String, operator: ComparisonOperator, value: Value, debounce_ms: u64 },
    /// Fires on the requested boolean transition of `source`.
    Edge { source: String, direction: EdgeDirection },
    /// Wall-clock mask at minute granularity; `None` matches anything.
    Schedule { minute: Option<u8>, hour: Option<u8>, weekday: Option<u8> },
    /// Fires when a message arrives on a matching topic.
    Mqtt { topic_pattern: String },
}

/// The view of a trigger.
pub enum TriggerV {
    Startup,
    Periodic { interval_ms: u64 },
    Threshold { source: Seq<char>, operator: ComparisonOperator, value: ValueV, debounce_ms: u64 },
    Edge { source: Seq<char>, direction: EdgeDirection },
    Schedule { minute: Option<u8>, hour: Option<u8>, weekday: Option<u8> },
    Mqtt { topic_pattern: Seq<char> },
}

impl View for Trigger {
    type V = TriggerV;

    open spec fn view(&self) -> TriggerV {
        match self {
            Trigger::Startup => TriggerV::Startup,
            Trigger::Periodic { interval_ms } => TriggerV::Periodic { interval_ms: *interval_ms },
            Trigger::Threshold { source, operator, value, debounce_ms } => TriggerV::Threshold {
                source: source@,
                operator: *operator,
                value: value@,
                debounce_ms: *debounce_ms,
            },
            Trigger::Edge { source, direction } => TriggerV::Edge {
                source: source@,
                direction: *direction,
            },
            Trigger::Schedule { minute, hour, weekday } => TriggerV::Schedule {
                minute: *minute,
                hour: *hour,
                weekday: *weekday,
            },
            Trigger::Mqtt { topic_pattern } => TriggerV::Mqtt { topic_pattern: topic_pattern@ },
        }
    }
}

impl Trigger {
    /// An exact copy of this trigger.
    pub fn duplicate(&self) -> (r: Trigger)
        ensures
            r@ == self@,
    {
        match self {
            Trigger::Startup => Trigger::Startup,
            Trigger::Periodic { interval_ms } => Trigger::Periodic { interval_ms: *interval_ms },
            Trigger::Threshold { source, operator, value, debounce_ms } => Trigger::Threshold {
                source: source.clone(),
                operator: *operator,
                value: value.duplicate(),
                debounce_ms: *debounce_ms,
            },
            Trigger::Edge { source, direction } => Trigger::Edge {
                source: source.clone(),
                direction: *direction,
            },
            Trigger::Schedule { minute, hour, weekday } => Trigger::Schedule {
                minute: *minute,
                hour: *hour,
                weekday: *weekday,
            },
            Trigger::Mqtt { topic_pattern } => Trigger::Mqtt {
                topic_pattern: topic_pattern.clone(),
            },
        }
    }
}

/// A persisted script definition: identity, firing rules, guard conditions,
/// the action list, and the error handlers.
pub struct ScriptDefinition {
    pub id: String,
    pub name: String,
    pub version: String,
    pub description: String,
    pub enabled: bool,
    pub triggers: Vec<Trigger>,
    pub conditions: Vec<Condition>,
    pub actions: Vec<Action>,
    pub on_error: Vec<Action>,
}

/// The view of a definition.
pub struct DefinitionV {
    pub id: Seq<char>,
    pub name: Seq<char>,
    pub version: Seq<char>,
    pub description: Seq<char>,
    pub enabled: bool,
    pub triggers: Seq<TriggerV>,
    pub conditions: Seq<ConditionV>,
    pub actions: Seq<ActionV>,
    pub on_error: Seq<ActionV>,
}

impl View for ScriptDefinition {
    type V = DefinitionV;

    open spec fn view(&self) -> DefinitionV {
        DefinitionV {
            id: self.id@,
            name: self.name@,
            version: self.version@,
            description: self.description@,
            enabled: self.enabled,
            triggers: self.triggers@.map_values(|t: Trigger| t@),
            conditions: self.conditions@.map_values(|c: Condition| c@),
            actions: self.actions@.map_values(|a: Action| a@),
            on_error: self.on_error@.map_values(|a: Action| a@),
        }
    }
}

/// Copy a vector of triggers, element by element.
pub fn dup_triggers(v: &Vec<Trigger>) -> (r: Vec<Trigger>)
    ensures
        r@.map_values(|t: Trigger| t@) == v@.map_values(|t: Trigger| t@),
{
    let mut r: Vec<Trigger> = Vec::new();
    let n = v.len();
    let mut i: usize = 0;
    while i < n
        invariant
            n == v@.len(),
            i <= n,
            r@.map_values(|t: Trigger| t@) =~= v@.subrange(0, i as int).map_values(
                |t: Trigger| t@,
            ),
        decreases n - i,
    {
        r.push(v[i].duplicate());
        proof {
            assert(v@.subrange(0, i + 1 as int).map_values(|t: Trigger| t@) =~= v@.subrange(
                0,
                i as int,
            ).map_values(|t: Trigger| t@).push(v@[i as int]@));
        }
        i = i + 1;
    }
    proof {
        assert(v@.subrange(0, n as int) =~= v@);
        assert(r@.map_values(|t: Trigger| t@) =~= v@.map_values(|t: Trigger| t@));
    }
    r
}

/// Copy a vector of conditions, element by element.
fn dup_conditions(v: &Vec<Condition>) -> (r: Vec<Condition>)
    ensures
        r@.map_values(|c: Condition| c@) == v@.map_values(|c: Condition| c@),
{
    let mut r: Vec<Condition> = Vec::new();
    let n = v.len();
    let mut i: usize = 0;
    while i < n
        invariant
            n == v@.len(),
            i <= n,
            r@.map_values(|c: Condition| c@) =~= v@.subrange(0, i as int).map_values(
                |c: Condition| c@,
            ),
        decreases n - i,
    {
        r.push(v[i].duplicate());
        proof {
            assert(v@.subrange(0, i + 1 as int).map_values(|c: Condition| c@) =~= v@.subrange(
                0,
                i as int,
            ).map_values(|c: Condition| c@).push(v@[i as int]@));
        }
        i = i + 1;
    }
    proof {
        assert(v@.subrange(0, n as int) =~= v@);
        assert(r@.map_values(|c: Condition| c@) =~= v@.map_values(|c: Condition| c@));
    }
    r
}

/// Copy a vector of actions, element by element.
pub fn dup_actions(v: &Vec<Action>) -> (r: Vec<Action>)
    ensures
        r@.map_values(|a: Action| a@) == v@.map_values(|a: Action| a@),
{
    let mut r: Vec<Action> = Vec::new();
    let n = v.len();
    let mut i: usize = 0;
    while i < n
        invariant
            n == v@.len(),
            i <= n,
            r@.map_values(|a: Action| a@) =~= v@.subrange(0, i as int).map_values(|a: Action| a@),
        decreases n - i,
    {
        r.push(v[i].duplicate());
        proof {
            assert(v@.subrange(0, i + 1 as int).map_values(|a: Action| a@) =~= v@.subrange(
                0,
                i as int,
            ).map_values(|a: Action| a@).push(v@[i as int]@));
        }
        i = i + 1;
    }
    proof {
        assert(v@.subrange(0, n as int) =~= v@);
        assert(r@.map_values(|a: Action| a@) =~= v@.map_values(|a: Action| a@));
    }
    r
}

impl ScriptDefinition {
    /// An exact copy of this definition.
    pub fn duplicate(&self) -> (r: ScriptDefinition)
        ensures
            r@ == self@,
    {
        ScriptDefinition {
            id: self.id.clone(),
            name: self.name.clone(),
            version: self.version.clone(),
            description: self.description.clone(),
            enabled: self.enabled,
            triggers: dup_triggers(&self.triggers),
            conditions: dup_conditions(&self.conditions),
            actions: dup_actions(&self.actions),
            on_error: dup_actions(&self.on_error),
        }
    }
}

} // verus!
