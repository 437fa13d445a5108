//! Plain message records exchanged with the cloud side, and the activation
//! identity.
//!
//! These are the library-side shapes; the embedding application owns the
//! wire encoding and the transport.

use vstd::prelude::*;

verus! {

/// A message received from the broker: topic and raw payload bytes.
pub struct IncomingMessage {
    pub topic: String,
    pub payload: Vec<u8>,
}

/// Connection status reported upstream.
#[derive(Clone, Copy, PartialEq, Eq, Structural, Debug)]
pub enum DeviceStatus {
    Online,
    Offline,
    Maintenance,
    Error,
}

impl DeviceStatus {
    /// The lowercase wire name of this status.
    pub fn wire_name(&self) -> (r: &'static str)
        ensures
            *self == DeviceStatus::Online ==> r@ == "online"@,
            *self == DeviceStatus::Offline ==> r@ == "offline"@,
            *self == DeviceStatus::Maintenance ==> r@ == "maintenance"@,
            *self == DeviceStatus::Error ==> r@ == "error"@,
    {
        match self {
            DeviceStatus::Online => "online",
            DeviceStatus::Offline => "offline",
            DeviceStatus::Maintenance => "maintenance",
            DeviceStatus::Error => "error",
        }
    }
}

/// The periodic status heartbeat.
pub struct StatusMessage {
    pub device_id: String,
    pub device_code: String,
    pub status: DeviceStatus,
    pub timestamp: String,
    pub agent_version: String,
    pub uptime_seconds: u64,
}

/// One GPIO pin reading inside a telemetry report.
pub struct GpioPinData {
    pub name: String,
    pub pin: u8,
    /// "input" or "output".
    pub direction: String,
    /// "high" or "low".
    pub state: String,
}

/// The device's activation identity: set once the provisioning handshake
/// has completed.
pub struct ActivationState {
    pub is_activated: bool,
    pub tenant_id: Option<String>,
    pub device_id: String,
}

impl ActivationState {
    /// An unactivated identity for the given device.
    pub fn new(device_id: String) -> (r: Self)
        ensures
            !r.is_activated,
            r.tenant_id is None,
            r.device_id@ == device_id@,
    {
        ActivationState { is_activated: false, tenant_id: None, device_id }
    }

    /// Record a completed activation for `tenant_id`.
    pub fn activate(&mut self, tenant_id: String)
        ensures
            final(self).is_activated,
            final(self).tenant_id matches Some(t) && t@ == tenant_id@,
            final(self).device_id == old(self).device_id,
    {
        self.is_activated = true;
        self.tenant_id = Some(tenant_id);
    }
}

} // verus!
