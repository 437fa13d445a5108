//! Agent configuration records and topic resolution.
//!
//! These are the plain-value configuration types the verified core works
//! with. Topic patterns carry `{tenant_id}` / `{device_id}` placeholders;
//! [`MqttTopics::resolve`] substitutes them, with a contract that pins the
//! resolved text exactly.

use vstd::prelude::*;

use crate::text::{chars_eq, chars_to_string, str_chars, sub_chars};

verus! {

/// MQTT transport configuration.
pub struct MqttConfig {
    /// Broker hostname, once known.
    pub broker: Option<String>,
    /// Broker port.
    pub port: u16,
    /// Credentials, set after activation.
    pub username: Option<String>,
    pub password: Option<String>,
    /// Topic patterns.
    pub topics: MqttTopics,
    /// Keep-alive interval in seconds.
    pub keepalive_secs: u64,
    /// Clean-session flag.
    pub clean_session: bool,
}

/// MQTT topic patterns, with `{tenant_id}` / `{device_id}` placeholders.
pub struct MqttTopics {
    pub status: String,
    pub telemetry: String,
    pub responses: String,
    pub commands: String,
    pub config: String,
}

/// Topic patterns with the placeholders substituted.
pub struct ResolvedTopics {
    pub status: String,
    pub telemetry: String,
    pub responses: String,
    pub commands: String,
    pub config: String,
}

/// Telemetry collection configuration.
pub struct TelemetryConfig {
    pub interval_seconds: u64,
    pub include_cpu: bool,
    pub include_memory: bool,
    pub include_disk: bool,
    pub include_temperature: bool,
}

/// Logging configuration.
pub struct LoggingConfig {
    pub level: String,
    pub file: String,
}

/// Byte order for multi-register Modbus values.
#[derive(Clone, Copy, PartialEq, Eq, Structural, Debug)]
pub enum ByteOrder {
    /// AB CD, the most common order on Modbus.
    BigEndian,
    /// CD AB.
    LittleEndian,
    /// BA DC.
    BigEndianByteSwap,
    /// DC BA.
    LittleEndianByteSwap,
}

/// One configured GPIO pin.
pub struct GpioConfig {
    pub name: String,
    pub pin: u8,
    /// "input" or "output".
    pub direction: String,
    /// "up", "down" or "none".
    pub pull: String,
    /// Invert the read/written level.
    pub invert: bool,
    /// Debounce time for inputs.
    pub debounce_ms: Option<u64>,
}

// Default values for configuration fields.

pub fn default_mqtt_port() -> (r: u16)
    ensures
        r == 1883,
{
    1883
}

pub fn default_keepalive() -> (r: u64)
    ensures
        r == 30,
{
    30
}

pub fn default_true() -> (r: bool)
    ensures
        r,
{
    true
}

pub fn default_telemetry_interval() -> (r: u64)
    ensures
        r == 30,
{
    30
}

pub fn default_log_level() -> (r: String)
    ensures
        r@ == "info"@,
{
    "info".to_owned()
}

pub fn default_log_file() -> (r: String)
    ensures
        r@ == "/var/log/suderra-agent.log"@,
{
    "/var/log/suderra-agent.log".to_owned()
}

pub fn default_slave_id() -> (r: u8)
    ensures
        r == 1,
{
    1
}

pub fn default_data_type() -> (r: String)
    ensures
        r@ == "u16"@,
{
    "u16".to_owned()
}

pub fn default_pull() -> (r: String)
    ensures
        r@ == "none"@,
{
    "none".to_owned()
}

pub fn default_status_topic() -> (r: String)
    ensures
        r@ == "tenants/{tenant_id}/devices/{device_id}/status"@,
{
    "tenants/{tenant_id}/devices/{device_id}/status".to_owned()
}

pub fn default_telemetry_topic() -> (r: String)
    ensures
        r@ == "tenants/{tenant_id}/devices/{device_id}/telemetry"@,
{
    "tenants/{tenant_id}/devices/{device_id}/telemetry".to_owned()
}

pub fn default_responses_topic() -> (r: String)
    ensures
        r@ == "tenants/{tenant_id}/devices/{device_id}/responses"@,
{
    "tenants/{tenant_id}/devices/{device_id}/responses".to_owned()
}

pub fn default_commands_topic() -> (r: String)
    ensures
        r@ == "tenants/{tenant_id}/devices/{device_id}/commands"@,
{
    "tenants/{tenant_id}/devices/{device_id}/commands".to_owned()
}

pub fn default_config_topic() -> (r: String)
    ensures
        r@ == "tenants/{tenant_id}/devices/{device_id}/config"@,
{
    "tenants/{tenant_id}/devices/{device_id}/config".to_owned()
}

impl Default for MqttTopics {
    /// The standard tenant-prefixed topic patterns.
    fn default() -> (r: Self)
        ensures
            r.status@ == "tenants/{tenant_id}/devices/{device_id}/status"@,
            r.telemetry@ == "tenants/{tenant_id}/devices/{device_id}/telemetry"@,
            r.responses@ == "tenants/{tenant_id}/devices/{device_id}/responses"@,
            r.commands@ == "tenants/{tenant_id}/devices/{device_id}/commands"@,
            r.config@ == "tenants/{tenant_id}/devices/{device_id}/config"@,
    {
        MqttTopics {
            status: default_status_topic(),
            telemetry: default_telemetry_topic(),
            responses: default_responses_topic(),
            commands: default_commands_topic(),
            config: default_config_topic(),
        }
    }
}

impl Default for TelemetryConfig {
    /// Telemetry every 30 s with every metric group on.
    fn default() -> (r: Self)
        ensures
            r.interval_seconds == 30,
            r.include_cpu && r.include_memory && r.include_disk && r.include_temperature,
    {
        TelemetryConfig {
            interval_seconds: default_telemetry_interval(),
            include_cpu: true,
            include_memory: true,
            include_disk: true,
            include_temperature: true,
        }
    }
}

impl Default for LoggingConfig {
    /// Log level "info" into the standard agent log file.
    fn default() -> (r: Self)
        ensures
            r.level@ == "info"@,
            r.file@ == "/var/log/suderra-agent.log"@,
    {
        LoggingConfig { level: default_log_level(), file: default_log_file() }
    }
}

impl Default for ByteOrder {
    /// Big endian, the most common order on Modbus.
    fn default() -> (r: Self)
        ensures
            r == ByteOrder::BigEndian,
    {
        ByteOrder::BigEndian
    }
}

// ---------------------------------------------------------------------------
// Topic resolution.
// ---------------------------------------------------------------------------

/// The resolution of a topic pattern from position `i` on: plain
/// characters are copied; `{tenant_id}` and `{device_id}` become the given
/// identifiers; any other placeholder, and an unterminated `{`, stays as
/// written (the close scan is shared with context interpolation).
pub open spec fn spec_resolve_from(
    t: Seq<char>,
    i: int,
    tenant: Seq<char>,
    device: Seq<char>,
) -> Seq<char>
    decreases t.len() - i,
    when 0 <= i <= t.len()
{
    if i >= t.len() {
        Seq::<char>::empty()
    } else if t[i] == '{' {
        let j = vstd::math::max(crate::context::spec_close_from(t, i + 1), i + 1);
        if j >= t.len() {
            t.subrange(i, t.len() as int)
        } else {
            (if t.subrange(i + 1, j) == "tenant_id"@ {
                tenant
            } else if t.subrange(i + 1, j) == "device_id"@ {
                device
            } else {
                t.subrange(i, j + 1)
            }) + spec_resolve_from(t, j + 1, tenant, device)
        }
    } else {
        seq![t[i]] + spec_resolve_from(t, i + 1, tenant, device)
    }
}

/// A topic pattern with `{tenant_id}` and `{device_id}` substituted; other
/// placeholders stay as written.
pub open spec fn spec_resolve(t: Seq<char>, tenant: Seq<char>, device: Seq<char>) -> Seq<char> {
    spec_resolve_from(t, 0, tenant, device)
}

/// Append the resolution of `t` from position `i` on to `out`.
fn resolve_step(t: &Vec<char>, i: usize, tenant: &str, device: &str, out: &mut Vec<char>)
    requires
        i <= t@.len(),
    ensures
        final(out)@ == old(out)@ + spec_resolve_from(t@, i as int, tenant@, device@),
    decreases t@.len() - i,
{
    let n = t.len();
    if i == n {
        assert(out@ =~= out@ + spec_resolve_from(t@, i as int, tenant@, device@));
        return ;
    }
    let c = t[i];
    if c == '{' {
        let mut j: usize = i + 1;
        while j < n && t[j] != '}'
            invariant
                n == t@.len(),
                i + 1 <= j <= n,
                crate::context::spec_close_from(t@, i + 1) == crate::context::spec_close_from(
                    t@,
                    j as int,
                ),
            decreases n - j,
        {
            j = j + 1;
        }
        proof {
            crate::context::lemma_close_from(t@, i + 1);
        }
        if j == n {
            let ghost pre = out@;
            let mut k: usize = i;
            while k < n
                invariant
                    n == t@.len(),
                    i <= k <= n,
                    out@ =~= pre + t@.subrange(i as int, k as int),
                decreases n - k,
            {
                let ck = t[k];
                out.push(ck);
                k = k + 1;
            }
            assert(out@ =~= pre + t@.subrange(i as int, n as int));
        } else {
            let name = sub_chars(t, i + 1, j);
            let tenant_key = str_chars("tenant_id");
            let device_key = str_chars("device_id");
            if chars_eq(&name, &tenant_key) {
                crate::text::push_str_chars(out, tenant);
            } else if chars_eq(&name, &device_key) {
                crate::text::push_str_chars(out, device);
            } else {
                let ghost pre = out@;
                let mut k: usize = i;
                while k < j + 1
                    invariant
                        n == t@.len(),
                        j < n,
                        i <= k <= j + 1,
                        out@ =~= pre + t@.subrange(i as int, k as int),
                    decreases j + 1 - k,
                {
                    let ck = t[k];
                    out.push(ck);
                    k = k + 1;
                }
                assert(out@ =~= pre + t@.subrange(i as int, j + 1 as int));
            }
            resolve_step(t, j + 1, tenant, device, out);
        }
    } else {
        out.push(c);
        resolve_step(t, i + 1, tenant, device, out);
        proof {
            assert(old(out)@ + seq![t@[i as int]] + spec_resolve_from(
                t@,
                i + 1 as int,
                tenant@,
                device@,
            ) =~= old(out)@ + (seq![t@[i as int]] + spec_resolve_from(
                t@,
                i + 1 as int,
                tenant@,
                device@,
            )));
        }
    }
}

/// Resolve one topic pattern.
fn resolve_topic(pattern: &str, tenant: &str, device: &str) -> (r: String)
    ensures
        r@ == spec_resolve(pattern@, tenant@, device@),
{
    let pc = str_chars(pattern);
    let mut out: Vec<char> = Vec::new();
    resolve_step(&pc, 0, tenant, device, &mut out);
    chars_to_string(&out)
}

impl MqttTopics {
    /// Substitute the actual tenant and device identifiers into all five
    /// topic patterns.
    pub fn resolve(&self, tenant_id: &str, device_id: &str) -> (r: ResolvedTopics)
        ensures
            r.status@ == spec_resolve(self.status@, tenant_id@, device_id@),
            r.telemetry@ == spec_resolve(self.telemetry@, tenant_id@, device_id@),
            r.responses@ == spec_resolve(self.responses@, tenant_id@, device_id@),
            r.commands@ == spec_resolve(self.commands@, tenant_id@, device_id@),
            r.config@ == spec_resolve(self.config@, tenant_id@, device_id@),
    {
        ResolvedTopics {
            status: resolve_topic(self.status.as_str(), tenant_id, device_id),
            telemetry: resolve_topic(self.telemetry.as_str(), tenant_id, device_id),
            responses: resolve_topic(self.responses.as_str(), tenant_id, device_id),
            commands: resolve_topic(self.commands.as_str(), tenant_id, device_id),
            config: resolve_topic(self.config.as_str(), tenant_id, device_id),
        }
    }
}

} // verus!
