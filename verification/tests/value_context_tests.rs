use edge_agent::config::MqttTopics;
use edge_agent::messages::{ActivationState, DeviceStatus};
use edge_agent::context::ScriptContext;
use edge_agent::value::{compare_values, ComparisonOperator, Value};

#[test]
fn test_topic_resolution() {
    let topics = MqttTopics::default();
    let resolved = topics.resolve("tenant-123", "device-456");

    assert_eq!(resolved.status, "tenants/tenant-123/devices/device-456/status");
    assert_eq!(resolved.telemetry, "tenants/tenant-123/devices/device-456/telemetry");
    assert_eq!(resolved.commands, "tenants/tenant-123/devices/device-456/commands");
}

#[test]
fn test_compare_values_numeric() {
    let mut ctx = ScriptContext::new();
    ctx.set_sensor("temp", Value::milli_value(25_500));

    assert!(ctx.get_sensor("temp").is_some());
    assert_eq!(ctx.get_sensor("temp"), Some(Value::milli_value(25_500)));
}

#[test]
fn test_numeric_operators() {
    let a = Value::int_value(25);
    let b = Value::int_value(30);
    assert!(compare_values(&a, &ComparisonOperator::Lt, &b));
    assert!(compare_values(&b, &ComparisonOperator::Gt, &a));
    assert!(compare_values(&a, &ComparisonOperator::Eq, &Value::milli_value(25_000)));
    assert!(compare_values(&a, &ComparisonOperator::Ne, &b));
    assert!(compare_values(&a, &ComparisonOperator::Lte, &a));
    assert!(compare_values(&a, &ComparisonOperator::Gte, &a));
    // Exact fixed-point comparison: 25.5 > 25.
    assert!(compare_values(&Value::milli_value(25_500), &ComparisonOperator::Gt, &a));
}

#[test]
fn test_between_and_contains() {
    let x = Value::int_value(50);
    let bounds = Value::Arr(vec![40_000, 60_000]);
    assert!(compare_values(&x, &ComparisonOperator::Between, &bounds));
    let low = Value::int_value(39);
    assert!(!compare_values(&low, &ComparisonOperator::Between, &bounds));
    let hay = Value::Str("water pump running".to_string());
    let needle = Value::Str("pump".to_string());
    assert!(compare_values(&hay, &ComparisonOperator::Contains, &needle));
    let missing = Value::Str("valve".to_string());
    assert!(!compare_values(&hay, &ComparisonOperator::Contains, &missing));
}

#[test]
fn test_mismatched_kinds_compare_false() {
    let n = Value::int_value(1);
    let b = Value::Bool(true);
    assert!(!compare_values(&n, &ComparisonOperator::Eq, &b));
    assert!(!compare_values(&b, &ComparisonOperator::Gt, &b));
    assert!(!compare_values(&n, &ComparisonOperator::Contains, &n));
}

#[test]
fn test_path_resolution_namespaces() {
    let mut ctx = ScriptContext::new();
    ctx.set_sensor("temp", Value::int_value(21));
    ctx.set_gpio(4, true);
    ctx.set_variable("mode", Value::Str("auto".to_string()));
    ctx.refresh_time(3 * 3_600_000 + 25 * 60_000); // 03:25 on the epoch day

    assert_eq!(ctx.get_value("sensor.temp"), Some(Value::int_value(21)));
    assert_eq!(ctx.get_value("gpio.4"), Some(Value::Bool(true)));
    assert_eq!(ctx.get_value("var.mode"), Some(Value::Str("auto".to_string())));
    assert_eq!(ctx.get_value("time.hour"), Some(Value::int_value(3)));
    assert_eq!(ctx.get_value("time.minute"), Some(Value::int_value(25)));
    assert_eq!(ctx.get_value("time.weekday"), Some(Value::int_value(4))); // epoch day is a Thursday
    assert_eq!(ctx.get_value("sensor.missing"), None);
    assert_eq!(ctx.get_value("nonsense"), None);
}

#[test]
fn test_interpolation() {
    let mut ctx = ScriptContext::new();
    ctx.set_sensor("temp", Value::milli_value(21_500));
    ctx.set_variable("name", Value::Str("tank".to_string()));
    let out = ctx.interpolate("{var.name}: {sensor.temp} C");
    assert_eq!(out, "tank: 21.5 C");
    // Unknown paths stay as written; an unterminated brace is copied.
    assert_eq!(ctx.interpolate("x {var.other} y"), "x {var.other} y");
    assert_eq!(ctx.interpolate("left {open"), "left {open");
}

#[test]
fn test_device_status_wire_names() {
    assert_eq!(DeviceStatus::Online.wire_name(), "online");
    assert_eq!(DeviceStatus::Offline.wire_name(), "offline");
    assert_eq!(DeviceStatus::Maintenance.wire_name(), "maintenance");
    assert_eq!(DeviceStatus::Error.wire_name(), "error");
}

#[test]
fn test_activation_state() {
    let mut st = ActivationState::new("dev-1".to_string());
    assert!(!st.is_activated);
    assert!(st.tenant_id.is_none());
    st.activate("tenant-9".to_string());
    assert!(st.is_activated);
    assert_eq!(st.tenant_id.as_deref(), Some("tenant-9"));
    assert_eq!(st.device_id, "dev-1");
}
