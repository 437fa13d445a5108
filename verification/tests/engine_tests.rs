use edge_agent::engine::ScriptEngine;
use edge_agent::limits::ScriptLimits;
use edge_agent::model::{
    Action, ActionType, Condition, EdgeDirection, ScriptDefinition, Trigger,
};
use edge_agent::triggers::topic_matches;
use edge_agent::value::{ComparisonOperator, Value};

fn definition(id: &str, triggers: Vec<Trigger>, actions: Vec<Action>) -> ScriptDefinition {
    ScriptDefinition {
        id: id.to_string(),
        name: id.to_string(),
        version: "1".to_string(),
        description: String::new(),
        enabled: true,
        triggers,
        conditions: Vec::new(),
        actions,
        on_error: Vec::new(),
    }
}

fn set_gpio_action(pin: &str, level: bool) -> Action {
    Action {
        target: pin.to_string(),
        value: Some(Value::Bool(level)),
        ..Action::of_type(ActionType::SetGpio)
    }
}

#[test]
fn test_threshold_debounce_scenario() {
    let mut engine = ScriptEngine::new();
    engine.configure_gpio_pin(17);
    let def = definition(
        "cooling",
        vec![Trigger::Threshold {
            source: "sensor.temp".to_string(),
            operator: ComparisonOperator::Gt,
            value: Value::int_value(80),
            debounce_ms: 2_000,
        }],
        vec![set_gpio_action("17", true)],
    );
    engine.add_script(def, 0);
    let no_events: Vec<String> = Vec::new();

    engine.set_sensor("temp", Value::int_value(70));
    let r = engine.tick(0, &no_events);
    assert_eq!(r.len(), 0); // below threshold: no fire

    engine.set_sensor("temp", Value::int_value(85));
    let r = engine.tick(1_000, &no_events);
    assert_eq!(r.len(), 0); // timer started, not elapsed

    let r = engine.tick(2_000, &no_events);
    assert_eq!(r.len(), 0); // 1 s elapsed of 2 s

    let r = engine.tick(3_000, &no_events);
    assert_eq!(r.len(), 1); // debounce satisfied: fires
    assert!(r[0].success);
    assert_eq!(r[0].actions_executed, 1);
    assert_eq!(engine.gpio.read_pin(17), Some(true));
}

#[test]
fn test_edge_trigger_with_inline_guard() {
    let mut engine = ScriptEngine::new();
    engine.configure_gpio_pin(4);
    engine.add_modbus_device("pump", 5, 30_000);
    let action = Action {
        device: Some("pump".to_string()),
        address: Some(40_001),
        value: Some(Value::int_value(1)),
        condition: Some(Condition {
            source: "var.mode".to_string(),
            operator: ComparisonOperator::Eq,
            value: Value::Str("auto".to_string()),
        }),
        ..Action::of_type(ActionType::WriteModbus)
    };
    let def = definition(
        "pump_on",
        vec![Trigger::Edge { source: "gpio.4".to_string(), direction: EdgeDirection::Rising }],
        vec![action],
    );
    engine.add_script(def, 0);
    engine.context.set_variable("mode", Value::Str("manual".to_string()));
    let no_events: Vec<String> = Vec::new();

    let r = engine.tick(0, &no_events); // first sample: low, no previous
    assert_eq!(r.len(), 0);
    engine.gpio.write_pin(4, true).unwrap();
    let r = engine.tick(1_000, &no_events); // rising edge: fires
    assert_eq!(r.len(), 1);
    assert!(r[0].success);
    assert_eq!(r[0].results.len(), 1);
    assert_eq!(r[0].results[0].message, "Condition not met - skipped");
    // The guard was false, so the actor was never touched.
    assert_eq!(engine.modbus.breaker_state("pump"), Some("closed"));
}

#[test]
fn test_conflict_arbitration_last_write_wins() {
    let mut engine = ScriptEngine::new();
    engine.configure_gpio_pin(7);
    engine.add_script(
        definition("a", vec![Trigger::Periodic { interval_ms: 0 }], vec![set_gpio_action(
            "7", true,
        )]),
        0,
    );
    engine.add_script(
        definition("b", vec![Trigger::Periodic { interval_ms: 0 }], vec![set_gpio_action(
            "7", false,
        )]),
        0,
    );
    let no_events: Vec<String> = Vec::new();
    let r = engine.tick(0, &no_events);
    assert_eq!(r.len(), 2);
    assert_eq!(r[0].script_id, "a");
    assert!(r[0].success);
    assert!(!r[0].results[0].message.contains("CONFLICT"));
    // B's write clashes with A's: last write wins, with a diagnostic.
    assert!(r[1].results[0].message.contains("GPIO CONFLICT: Pin 7"));
    assert_eq!(engine.gpio.read_pin(7), Some(false));
}

#[test]
fn test_duplicate_write_suppressed() {
    let mut engine = ScriptEngine::new();
    engine.configure_gpio_pin(7);
    engine.add_script(
        definition("a", vec![Trigger::Periodic { interval_ms: 0 }], vec![set_gpio_action(
            "7", true,
        )]),
        0,
    );
    engine.add_script(
        definition("b", vec![Trigger::Periodic { interval_ms: 0 }], vec![set_gpio_action(
            "7", true,
        )]),
        0,
    );
    let no_events: Vec<String> = Vec::new();
    let r = engine.tick(0, &no_events);
    assert_eq!(r.len(), 2);
    assert!(r[0].success);
    assert!(r[1].success);
    assert_eq!(r[1].results[0].message, "Duplicate write suppressed");
    assert_eq!(engine.gpio.read_pin(7), Some(true));
}

#[test]
fn test_infinite_recursion_bounded() {
    let mut engine = ScriptEngine::new();
    let action = Action {
        script_id: Some("x".to_string()),
        ..Action::of_type(ActionType::CallScript)
    };
    engine.add_script(definition("x", Vec::new(), vec![action]), 0);
    let r = engine.execute_script("x", 0).unwrap();
    assert!(!r.success);
    assert!(r.results[0].message.contains("Max call depth (5) exceeded"));
    // No hardware was touched along the whole chain.
    assert_eq!(engine.gpio.pin_count(), 0);
}

#[test]
fn test_rate_limit_scenario() {
    let limits = ScriptLimits { rate_limit_per_minute: 3, ..Default::default() };
    let mut engine = ScriptEngine::with_limits(limits);
    engine.add_script(
        definition("s", Vec::new(), vec![Action::of_type(ActionType::Noop)]),
        0,
    );
    for t in 0..3u64 {
        let r = engine.execute_script("s", t).unwrap();
        assert!(r.success, "run {} should pass", t);
    }
    let r = engine.execute_script("s", 3).unwrap();
    assert!(!r.success);
    assert_eq!(r.results[0].message, "Rate limit exceeded (3/min)");
    // A rate-limited run never reaches storage: no error is counted.
    assert_eq!(engine.get_script("s").unwrap().error_count, 0);
}

#[test]
fn test_circuit_breaker_scenario() {
    let mut engine = ScriptEngine::new();
    engine.add_modbus_device("plc", 5, 60_000);
    engine.set_device_fault("plc", Some("device error".to_string()));
    for t in 0..5u64 {
        let r = engine.modbus.write_register("plc", 100, 1, t);
        assert!(r.is_err(), "faulty write {} must fail", t);
    }
    // Threshold reached: the sixth call fails fast without touching the
    // wire.
    assert_eq!(engine.modbus.breaker_state("plc"), Some("open"));
    let r = engine.modbus.write_register("plc", 100, 1, 10);
    assert!(matches!(r, Err(edge_agent::hardware::ModbusError::CircuitOpen)));
    // After the recovery timeout the seventh call goes through; two
    // successes close the breaker.
    engine.set_device_fault("plc", None);
    assert!(engine.modbus.write_register("plc", 100, 7, 61_000).is_ok());
    assert_eq!(engine.modbus.breaker_state("plc"), Some("half_open"));
    assert!(engine.modbus.write_register("plc", 100, 8, 61_100).is_ok());
    assert_eq!(engine.modbus.breaker_state("plc"), Some("closed"));
}

#[test]
fn test_action_quota_boundary() {
    let limits = ScriptLimits { max_actions_per_run: 3, ..Default::default() };
    let mut engine = ScriptEngine::with_limits(limits);
    let actions = vec![
        Action::of_type(ActionType::Noop),
        Action::of_type(ActionType::Noop),
        Action::of_type(ActionType::Noop),
        Action::of_type(ActionType::Noop),
    ];
    engine.add_script(definition("s", Vec::new(), actions), 0);
    let r = engine.execute_script("s", 0).unwrap();
    assert!(!r.success);
    assert_eq!(r.actions_executed, 3);
    assert_eq!(r.actions_failed, 1);
    assert_eq!(r.results[3].message, "Action limit (3) exceeded");
}

#[test]
fn test_delay_boundary() {
    let mut engine = ScriptEngine::new();
    let ok_delay = Action { delay_ms: Some(60_000), ..Action::of_type(ActionType::Delay) };
    let too_long = Action { delay_ms: Some(60_001), ..Action::of_type(ActionType::Delay) };
    engine.add_script(definition("ok", Vec::new(), vec![ok_delay]), 0);
    engine.add_script(definition("long", Vec::new(), vec![too_long]), 0);
    let r = engine.execute_script("ok", 0).unwrap();
    assert!(r.success);
    assert_eq!(r.duration_ms, 60_000);
    let r = engine.execute_script("long", 0).unwrap();
    assert!(!r.success);
    assert!(r.results[0].message.contains("exceeds maximum allowed"));
}

#[test]
fn test_missing_condition_source_skips() {
    let mut engine = ScriptEngine::new();
    let mut def = definition("s", Vec::new(), vec![Action::of_type(ActionType::Noop)]);
    def.conditions = vec![Condition {
        source: "sensor.absent".to_string(),
        operator: ComparisonOperator::Gt,
        value: Value::int_value(1),
    }];
    engine.add_script(def, 0);
    let r = engine.execute_script("s", 0).unwrap();
    assert!(r.success);
    assert_eq!(r.actions_executed, 0);
    assert_eq!(engine.get_script("s").unwrap().last_result.as_deref(), Some(
        "Conditions not met - skipped",
    ));
}

#[test]
fn test_sticky_error_latches_and_reenable_clears() {
    let mut engine = ScriptEngine::new();
    // A write to an unconfigured device fails every run.
    let bad = Action {
        device: Some("ghost".to_string()),
        address: Some(1),
        value: Some(Value::int_value(1)),
        ..Action::of_type(ActionType::WriteModbus)
    };
    engine.add_script(definition("s", vec![Trigger::Periodic { interval_ms: 0 }], vec![bad]), 0);
    let no_events: Vec<String> = Vec::new();
    for t in 0..5u64 {
        let r = engine.tick(t * 1_000, &no_events);
        assert_eq!(r.len(), 1, "run {} should have been selected", t);
        assert!(!r[0].success);
    }
    let rec = engine.get_script("s").unwrap();
    assert_eq!(rec.error_count, 5);
    assert_eq!(format!("{:?}", rec.status), "Error");
    // Latched: the trigger manager no longer selects the script.
    let r = engine.tick(10_000, &no_events);
    assert_eq!(r.len(), 0);
    // An explicit re-enable reactivates it.
    assert!(engine.enable_script("s", 11_000));
    let r = engine.tick(12_000, &no_events);
    assert_eq!(r.len(), 1);
}

#[test]
fn test_periodic_zero_interval_fires_every_tick() {
    let mut engine = ScriptEngine::new();
    engine.add_script(
        definition("s", vec![Trigger::Periodic { interval_ms: 0 }], vec![Action::of_type(
            ActionType::Noop,
        )]),
        0,
    );
    let no_events: Vec<String> = Vec::new();
    assert_eq!(engine.tick(0, &no_events).len(), 1);
    assert_eq!(engine.tick(1_000, &no_events).len(), 1);
    assert_eq!(engine.tick(2_000, &no_events).len(), 1);
}

#[test]
fn test_deploy_fetch_roundtrip() {
    let mut engine = ScriptEngine::new();
    let def = definition(
        "rt",
        vec![Trigger::Periodic { interval_ms: 500 }],
        vec![set_gpio_action("3", true)],
    );
    engine.add_script(def, 42);
    let fetched = engine.get_script("rt").unwrap();
    // The stored definition is exactly the deployed one, field for field,
    // so re-serializing it reproduces the deployed bytes.
    assert_eq!(fetched.definition.id, "rt");
    assert_eq!(fetched.definition.name, "rt");
    assert_eq!(fetched.definition.version, "1");
    assert!(fetched.definition.enabled);
    assert_eq!(fetched.definition.triggers.len(), 1);
    assert_eq!(fetched.definition.actions.len(), 1);
    assert_eq!(fetched.definition.actions[0].target, "3");
    assert_eq!(fetched.created_at, 42);
    assert_eq!(fetched.error_count, 0);
}

#[test]
fn test_enable_already_enabled_is_noop_on_content() {
    let mut engine = ScriptEngine::new();
    let def = definition("s", Vec::new(), vec![Action::of_type(ActionType::Noop)]);
    engine.add_script(def, 0);
    assert!(engine.get_script("s").unwrap().definition.enabled);
    assert!(engine.enable_script("s", 99));
    let after = engine.get_script("s").unwrap();
    // The persisted content (the definition) is identical; only the
    // bookkeeping timestamp moved.
    assert!(after.definition.enabled);
    assert_eq!(after.definition.id, "s");
    assert_eq!(after.definition.name, "s");
    assert_eq!(after.updated_at, 99);
}

#[test]
fn test_outbox_collects_publishes() {
    let mut engine = ScriptEngine::new();
    engine.context.set_variable("tank", Value::int_value(2));
    let publish = Action {
        target: "site/{var.tank}/state".to_string(),
        message: Some("level {var.tank}".to_string()),
        ..Action::of_type(ActionType::PublishMqtt)
    };
    engine.add_script(definition("p", Vec::new(), vec![publish]), 0);
    let r = engine.execute_script("p", 0).unwrap();
    assert!(r.success);
    let out = engine.drain_outbox();
    assert_eq!(out.len(), 1);
    assert_eq!(out[0].topic, "site/2/state");
    assert_eq!(out[0].payload, "level 2");
    assert_eq!(engine.drain_outbox().len(), 0);
}

#[test]
fn test_mqtt_trigger_fires_on_matching_topic() {
    let mut engine = ScriptEngine::new();
    engine.add_script(
        definition("m", vec![Trigger::Mqtt { topic_pattern: "cmd/run".to_string() }], vec![
            Action::of_type(ActionType::Noop),
        ]),
        0,
    );
    let quiet: Vec<String> = vec!["other/topic".to_string()];
    assert_eq!(engine.tick(0, &quiet).len(), 0);
    let events: Vec<String> = vec!["cmd/run".to_string()];
    assert_eq!(engine.tick(1_000, &events).len(), 1);
}

#[test]
fn test_on_error_handlers_run() {
    let mut engine = ScriptEngine::new();
    let bad = Action {
        device: Some("ghost".to_string()),
        address: Some(1),
        value: Some(Value::int_value(1)),
        ..Action::of_type(ActionType::WriteModbus)
    };
    let mut def = definition("s", Vec::new(), vec![bad]);
    def.on_error = vec![Action {
        message: Some("recovering".to_string()),
        ..Action::of_type(ActionType::Log)
    }];
    engine.add_script(def, 0);
    let r = engine.execute_script("s", 0).unwrap();
    assert!(!r.success);
    assert_eq!(r.actions_failed, 1);
    assert_eq!(r.results.len(), 2);
    assert_eq!(r.results[1].message, "recovering");
}

#[test]
fn test_mqtt_topic_wildcards() {
    assert!(topic_matches("site/+/temp", "site/tank1/temp"));
    assert!(!topic_matches("site/+/temp", "site/tank1/a/temp"));
    assert!(topic_matches("site/#", "site/tank1/a/temp"));
    assert!(topic_matches("site/#", "site"));
    assert!(!topic_matches("site/#", "plant/x"));
    assert!(topic_matches("a/b", "a/b"));
    assert!(!topic_matches("a/b", "a/c"));
    assert!(topic_matches("+/+", "a/b"));
    assert!(!topic_matches("+", "a/b"));
}

#[test]
fn test_mqtt_trigger_wildcard_fires() {
    let mut engine = ScriptEngine::new();
    engine.add_script(
        definition("w", vec![Trigger::Mqtt { topic_pattern: "cmd/+/run".to_string() }], vec![
            Action::of_type(ActionType::Noop),
        ]),
        0,
    );
    let events: Vec<String> = vec!["cmd/pump/run".to_string()];
    assert_eq!(engine.tick(0, &events).len(), 1);
}

#[test]
fn test_result_timestamp_is_rfc3339() {
    let mut engine = ScriptEngine::new();
    engine.add_script(definition("t", Vec::new(), vec![Action::of_type(ActionType::Noop)]), 0);
    let r = engine.execute_script("t", 0).unwrap();
    // Epoch zero renders as the RFC 3339 start of 1970, UTC.
    assert!(r.timestamp.starts_with("1970-01-01T00:00:00"));
}
