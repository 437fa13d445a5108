//! Hardware actor models: serialized access to GPIO pins and Modbus
//! devices.
//!
//! The GPIO actor runs the documented simulation semantics: reads return
//! the last written level (low before any write), writes always succeed and
//! update the simulated level, and `is_available` reports that no real
//! hardware is attached. The Modbus actor keeps per-device register and
//! coil images and guards every write with a device-scoped circuit breaker;
//! a breaker that is open and still cooling fails fast with `CircuitOpen`
//! and leaves the device image untouched. A device can be marked faulty to
//! simulate a failing instrument, which is what drives the breaker through
//! its transitions.

use vstd::prelude::*;

use crate::breaker::{cb_allows, cb_step, cb_wf, CbEvent, CbModel, CircuitBreaker};
use crate::text::str_eq;

verus! {

// ---------------------------------------------------------------------------
// GPIO actor (simulation).
// ---------------------------------------------------------------------------

struct GpioPin {
    pin: u8,
    state: bool,
}

/// Single-writer owner of the GPIO pins, in simulation mode.
pub struct GpioActor {
    pins: Vec<GpioPin>,
}

/// No two entries share a pin.
spec fn pins_unique(s: Seq<GpioPin>) -> bool {
    forall|i: int, j: int| 0 <= i < j < s.len() ==> s[i].pin != s[j].pin
}

impl GpioActor {
    /// Some entry holds `pin`.
    pub closed spec fn spec_has(&self, pin: u8) -> bool {
        exists|i: int| 0 <= i < self.pins@.len() && self.pins@[i].pin == pin
    }

    /// The simulated level of `pin` (meaningful when `spec_has`).
    pub closed spec fn spec_level(&self, pin: u8) -> bool {
        let i = choose|i: int| 0 <= i < self.pins@.len() && self.pins@[i].pin == pin;
        self.pins@[i].state
    }

    /// Number of configured pins.
    pub closed spec fn spec_count(&self) -> nat {
        self.pins@.len()
    }

    /// Every configured pin with its simulated level, in configuration
    /// order.
    pub closed spec fn spec_pins(&self) -> Seq<(u8, bool)> {
        self.pins@.map_values(|p: GpioPin| (p.pin, p.state))
    }

    /// Structural invariant: unique pins.
    pub closed spec fn wf(&self) -> bool {
        pins_unique(self.pins@)
    }

    proof fn lemma_at_witness(&self, pin: u8, i: int)
        requires
            self.wf(),
            0 <= i < self.pins@.len(),
            self.pins@[i].pin == pin,
        ensures
            self.spec_has(pin),
            self.spec_level(pin) == self.pins@[i].state,
    {
        assert(self.spec_has(pin));
        let j = choose|j: int| 0 <= j < self.pins@.len() && self.pins@[j].pin == pin;
        if i < j {
            assert(self.pins@[i].pin != self.pins@[j].pin);
        } else if j < i {
            assert(self.pins@[j].pin != self.pins@[i].pin);
        }
    }

    /// An actor with no configured pins.
    pub fn new() -> (r: Self)
        ensures
            r.wf(),
            r.spec_count() == 0,
            forall|p: u8| !r.spec_has(p),
    {
        GpioActor { pins: Vec::new() }
    }

    /// Configure `pin`, starting low; re-configuring an existing pin leaves
    /// its level alone.
    pub fn init_pin(&mut self, pin: u8)
        requires
            old(self).wf(),
        ensures
            final(self).wf(),
            final(self).spec_has(pin),
            final(self).spec_level(pin) == if old(self).spec_has(pin) {
                old(self).spec_level(pin)
            } else {
                false
            },
            forall|p: u8|
                p != pin ==> #[trigger] final(self).spec_has(p) == old(self).spec_has(p),
            forall|p: u8|
                p != pin && old(self).spec_has(p) ==> #[trigger] final(self).spec_level(p) == old(self).spec_level(p),
            final(self).spec_count() == if old(self).spec_has(pin) {
                old(self).spec_count()
            } else {
                old(self).spec_count() + 1
            },
    {
        match self.find(pin) {
            Some(_) => {},
            None => {
                let ghost olds = self.pins@;
                self.pins.push(GpioPin { pin, state: false });
                proof {
                    let n = olds.len() as int;
                    assert forall|x: int, y: int|
                        0 <= x < y < self.pins@.len() implies self.pins@[x].pin
                        != self.pins@[y].pin by {
                        if y < n {
                        } else {
                            if self.pins@[x].pin == pin {
                                assert(old(self).spec_has(pin));
                            }
                        }
                    }
                    self.lemma_at_witness(pin, n);
                    self.lemma_others(olds, pin);
                }
            },
        }
    }

    /// The index of the entry for `pin`, if one exists.
    fn find(&self, pin: u8) -> (r: Option<usize>)
        requires
            self.wf(),
        ensures
            match r {
                Some(i) => i < self.pins@.len() && self.pins@[i as int].pin == pin
                    && self.spec_has(pin) && self.spec_level(pin) == self.pins@[i as int].state,
                None => !self.spec_has(pin),
            },
    {
        let n = self.pins.len();
        let mut i: usize = 0;
        while i < n
            invariant
                self.wf(),
                n == self.pins@.len(),
                i <= n,
                forall|k: int| 0 <= k < i ==> self.pins@[k].pin != pin,
            decreases n - i,
        {
            if self.pins[i].pin == pin {
                proof {
                    self.lemma_at_witness(pin, i as int);
                }
                return Some(i);
            }
            i = i + 1;
        }
        None
    }

    /// After an operation that touched only the entry for `pin` (or
    /// appended one), every other pin resolves as before.
    proof fn lemma_others(&self, olds: Seq<GpioPin>, pin: u8)
        requires
            self.wf(),
            pins_unique(olds),
            self.pins@.len() == olds.len() || self.pins@.len() == olds.len() + 1,
            forall|k: int|
                0 <= k < olds.len() ==> (#[trigger] self.pins@[k].pin) == olds[k].pin,
            forall|k: int|
                0 <= k < olds.len() && olds[k].pin != pin ==> self.pins@[k] == olds[k],
            self.pins@.len() == olds.len() + 1 ==> self.pins@[olds.len() as int].pin == pin,
        ensures
            forall|p: u8|
                p != pin ==> #[trigger] self.spec_has(p) == exists|k: int|
                    0 <= k < olds.len() && olds[k].pin == p,
            forall|p: u8, k: int|
                #![trigger olds[k].pin, self.spec_level(p)]
                p != pin && 0 <= k < olds.len() && olds[k].pin == p ==> self.spec_level(p)
                    == olds[k].state,
    {
        assert forall|p: u8| p != pin implies #[trigger] self.spec_has(p) == exists|k: int|
            0 <= k < olds.len() && olds[k].pin == p by {
            if exists|k: int| 0 <= k < olds.len() && olds[k].pin == p {
                let k = choose|k: int| 0 <= k < olds.len() && olds[k].pin == p;
                assert(self.pins@[k].pin == p);
            }
            if self.spec_has(p) {
                let k = choose|k: int| 0 <= k < self.pins@.len() && self.pins@[k].pin == p;
                assert(k < olds.len());
                assert(olds[k].pin == p);
            }
        }
        assert forall|p: u8, k: int|
            #![trigger olds[k].pin, self.spec_level(p)]
            p != pin && 0 <= k < olds.len() && olds[k].pin == p implies self.spec_level(p)
            == olds[k].state by {
            assert(self.pins@[k] == olds[k]);
            self.lemma_at_witness(p, k);
        }
    }

    /// Drive `pin` to `state`. In simulation mode this always succeeds for
    /// a configured pin and updates the simulated level; an unconfigured
    /// pin is rejected.
    pub fn write_pin(&mut self, pin: u8, state: bool) -> (r: Result<(), String>)
        requires
            old(self).wf(),
        ensures
            final(self).wf(),
            r is Ok <==> old(self).spec_has(pin),
            r is Err ==> *final(self) == *old(self),
            r is Ok ==> final(self).spec_has(pin) && final(self).spec_level(pin) == state,
            forall|p: u8|
                p != pin ==> #[trigger] final(self).spec_has(p) == old(self).spec_has(p),
            forall|p: u8|
                p != pin && old(self).spec_has(p) ==> #[trigger] final(self).spec_level(p) == old(self).spec_level(p),
            final(self).spec_count() == old(self).spec_count(),
    {
        match self.find(pin) {
            Some(i) => {
                let ghost olds = self.pins@;
                self.pins[i].state = state;
                proof {
                    assert(olds[i as int].pin == pin);
                    assert forall|k: int| 0 <= k < self.pins@.len() implies self.pins@[k].pin
                        == olds[k].pin by {}
                    self.lemma_at_witness(pin, i as int);
                    self.lemma_others(olds, pin);
                }
                Ok(())
            },
            None => Err("GPIO pin not configured".to_owned()),
        }
    }

    /// The simulated level of `pin`: the last written level, or low.
    pub fn read_pin(&self, pin: u8) -> (r: Option<bool>)
        requires
            self.wf(),
        ensures
            r == if self.spec_has(pin) {
                Some(self.spec_level(pin))
            } else {
                None::<bool>
            },
    {
        match self.find(pin) {
            Some(i) => Some(self.pins[i].state),
            None => None,
        }
    }

    /// Every configured pin with its simulated level, in configuration
    /// order.
    pub fn read_all(&self) -> (r: Vec<(u8, bool)>)
        requires
            self.wf(),
        ensures
            r@.len() == self.spec_count(),
            r@ == self.spec_pins(),
            forall|k: int|
                0 <= k < r@.len() ==> #[trigger] self.spec_has(r@[k].0) && self.spec_level(r@[k].0)
                    == r@[k].1,
    {
        let n = self.pins.len();
        let mut r: Vec<(u8, bool)> = Vec::new();
        let mut i: usize = 0;
        while i < n
            invariant
                self.wf(),
                n == self.pins@.len(),
                i <= n,
                r@.len() == i,
                r@ == self.spec_pins().subrange(0, i as int),
                forall|k: int|
                    0 <= k < r@.len() ==> #[trigger] self.spec_has(r@[k].0) && self.spec_level(
                        r@[k].0,
                    ) == r@[k].1,
            decreases n - i,
        {
            let e = &self.pins[i];
            proof {
                self.lemma_at_witness(e.pin, i as int);
            }
            let ghost oldr = r@;
            r.push((e.pin, e.state));
            proof {
                assert(r@ =~= self.spec_pins().subrange(0, i + 1 as int));
                assert forall|k: int|
                    0 <= k < r@.len() implies #[trigger] self.spec_has(r@[k].0)
                    && self.spec_level(r@[k].0) == r@[k].1 by {
                    if k < oldr.len() {
                        assert(r@[k] == oldr[k]);
                    } else {
                        assert(r@[k] == (self.pins@[i as int].pin, self.pins@[i as int].state));
                    }
                }
            }
            i = i + 1;
        }
        proof {
            assert(r@ =~= self.spec_pins());
        }
        r
    }

    /// Whether real hardware is attached: in this build the actor always
    /// runs in simulation mode, so this is `false`.
    pub fn is_available(&self) -> (r: bool)
        ensures
            !r,
    {
        false
    }

    /// Number of configured pins.
    pub fn pin_count(&self) -> (r: usize)
        ensures
            r as nat == self.spec_count(),
    {
        self.pins.len()
    }
}

// ---------------------------------------------------------------------------
// Modbus actor (simulation, breaker-guarded).
// ---------------------------------------------------------------------------

/// Why a Modbus operation failed.
#[derive(Clone, Debug)]
pub enum ModbusError {
    /// No device of that name is configured.
    DeviceNotFound,
    /// The device's circuit breaker is open and still cooling; the wire was
    /// not touched.
    CircuitOpen,
    /// The device itself reported an error.
    Device(String),
}

impl ModbusError {
    /// The wording of this error.
    pub fn message(&self) -> (r: String)
        ensures
            *self matches ModbusError::DeviceNotFound ==> r@ == "Device not found"@,
            *self matches ModbusError::CircuitOpen ==> r@ == "Circuit breaker open"@,
            self matches ModbusError::Device(m) ==> r@ == m@,
    {
        match self {
            ModbusError::DeviceNotFound => "Device not found".to_owned(),
            ModbusError::CircuitOpen => "Circuit breaker open".to_owned(),
            ModbusError::Device(m) => m.clone(),
        }
    }
}

struct RegEntry {
    address: u16,
    value: u16,
}

struct CoilEntry {
    address: u16,
    value: bool,
}

struct ModbusDevice {
    name: String,
    breaker: CircuitBreaker,
    registers: Vec<RegEntry>,
    coils: Vec<CoilEntry>,
    fault: Option<String>,
}

/// Single-writer owner of the Modbus devices, each write guarded by a
/// device-scoped circuit breaker.
pub struct ModbusActor {
    devices: Vec<ModbusDevice>,
}

spec fn regs_unique(s: Seq<RegEntry>) -> bool {
    forall|i: int, j: int| 0 <= i < j < s.len() ==> s[i].address != s[j].address
}

spec fn coils_unique(s: Seq<CoilEntry>) -> bool {
    forall|i: int, j: int| 0 <= i < j < s.len() ==> s[i].address != s[j].address
}

spec fn devices_unique(s: Seq<ModbusDevice>) -> bool {
    forall|i: int, j: int| 0 <= i < j < s.len() ==> s[i].name@ != s[j].name@
}

/// The value stored at `address` in a register list.
spec fn reg_seq_at(s: Seq<RegEntry>, address: u16) -> Option<u16> {
    if exists|k: int| 0 <= k < s.len() && s[k].address == address {
        let k = choose|k: int| 0 <= k < s.len() && s[k].address == address;
        Some(s[k].value)
    } else {
        None
    }
}

/// The value stored at `address` in a coil list.
spec fn coil_seq_at(s: Seq<CoilEntry>, address: u16) -> Option<bool> {
    if exists|k: int| 0 <= k < s.len() && s[k].address == address {
        let k = choose|k: int| 0 <= k < s.len() && s[k].address == address;
        Some(s[k].value)
    } else {
        None
    }
}

/// After storing at index `i` (address `address`) in a unique-address
/// register list — either updating the entry that held `address`, or
/// appending one when none did — that address reads the new value and every
/// other address reads as before.
proof fn lemma_reg_set(news: Seq<RegEntry>, olds: Seq<RegEntry>, address: u16, i: int)
    requires
        regs_unique(news),
        regs_unique(olds),
        0 <= i < news.len(),
        news[i].address == address,
        forall|k: int| 0 <= k < olds.len() && k != i ==> news[k] == olds[k],
        (news.len() == olds.len() && i < olds.len() && olds[i].address == address) || (news.len()
            == olds.len() + 1 && i == olds.len() && forall|k: int|
            0 <= k < olds.len() ==> (#[trigger] olds[k].address) != address),
    ensures
        reg_seq_at(news, address) == Some(news[i].value),
        forall|a: u16|
            a != address ==> #[trigger] reg_seq_at(news, a) == reg_seq_at(olds, a),
{
    assert forall|k: int|
        0 <= k < olds.len() && k != i implies (#[trigger] olds[k].address) != address by {
        if news.len() == olds.len() {
            if k < i {
                assert(olds[k].address != olds[i].address);
            } else {
                assert(olds[i].address != olds[k].address);
            }
        }
    }
    assert(reg_seq_at(news, address) == Some(news[i].value)) by {
        assert(exists|k: int| 0 <= k < news.len() && news[k].address == address);
        let k = choose|k: int| 0 <= k < news.len() && news[k].address == address;
        if k < i {
            assert(news[k].address != news[i].address);
        } else if i < k {
            assert(news[i].address != news[k].address);
        }
    }
    assert forall|a: u16| a != address implies #[trigger] reg_seq_at(news, a) == reg_seq_at(
        olds,
        a,
    ) by {
        if exists|k: int| 0 <= k < olds.len() && olds[k].address == a {
            let k = choose|k: int| 0 <= k < olds.len() && olds[k].address == a;
            assert(k != i);
            assert(news[k] == olds[k]);
            assert(exists|k2: int| 0 <= k2 < news.len() && news[k2].address == a);
            let k2 = choose|k2: int| 0 <= k2 < news.len() && news[k2].address == a;
            if k < k2 {
                assert(news[k].address != news[k2].address);
            } else if k2 < k {
                assert(news[k2].address != news[k].address);
            }
            let k3 = choose|k3: int| 0 <= k3 < olds.len() && olds[k3].address == a;
            if k < k3 {
                assert(olds[k].address != olds[k3].address);
            } else if k3 < k {
                assert(olds[k3].address != olds[k].address);
            }
        } else {
            if exists|k: int| 0 <= k < news.len() && news[k].address == a {
                let k = choose|k: int| 0 <= k < news.len() && news[k].address == a;
                assert(k != i);
                assert(k < olds.len());
                assert(olds[k].address == a);
            }
        }
    }
}

/// Coil counterpart of [`lemma_reg_set`].
proof fn lemma_coil_set(news: Seq<CoilEntry>, olds: Seq<CoilEntry>, address: u16, i: int)
    requires
        coils_unique(news),
        coils_unique(olds),
        0 <= i < news.len(),
        news[i].address == address,
        forall|k: int| 0 <= k < olds.len() && k != i ==> news[k] == olds[k],
        (news.len() == olds.len() && i < olds.len() && olds[i].address == address) || (news.len()
            == olds.len() + 1 && i == olds.len() && forall|k: int|
            0 <= k < olds.len() ==> (#[trigger] olds[k].address) != address),
    ensures
        coil_seq_at(news, address) == Some(news[i].value),
        forall|a: u16|
            a != address ==> #[trigger] coil_seq_at(news, a) == coil_seq_at(olds, a),
{
    assert forall|k: int|
        0 <= k < olds.len() && k != i implies (#[trigger] olds[k].address) != address by {
        if news.len() == olds.len() {
            if k < i {
                assert(olds[k].address != olds[i].address);
            } else {
                assert(olds[i].address != olds[k].address);
            }
        }
    }
    assert(coil_seq_at(news, address) == Some(news[i].value)) by {
        assert(exists|k: int| 0 <= k < news.len() && news[k].address == address);
        let k = choose|k: int| 0 <= k < news.len() && news[k].address == address;
        if k < i {
            assert(news[k].address != news[i].address);
        } else if i < k {
            assert(news[i].address != news[k].address);
        }
    }
    assert forall|a: u16| a != address implies #[trigger] coil_seq_at(news, a) == coil_seq_at(
        olds,
        a,
    ) by {
        if exists|k: int| 0 <= k < olds.len() && olds[k].address == a {
            let k = choose|k: int| 0 <= k < olds.len() && olds[k].address == a;
            assert(k != i);
            assert(news[k] == olds[k]);
            assert(exists|k2: int| 0 <= k2 < news.len() && news[k2].address == a);
            let k2 = choose|k2: int| 0 <= k2 < news.len() && news[k2].address == a;
            if k < k2 {
                assert(news[k].address != news[k2].address);
            } else if k2 < k {
                assert(news[k2].address != news[k].address);
            }
            let k3 = choose|k3: int| 0 <= k3 < olds.len() && olds[k3].address == a;
            if k < k3 {
                assert(olds[k].address != olds[k3].address);
            } else if k3 < k {
                assert(olds[k3].address != olds[k].address);
            }
        } else {
            if exists|k: int| 0 <= k < news.len() && news[k].address == a {
                let k = choose|k: int| 0 <= k < news.len() && news[k].address == a;
                assert(k != i);
                assert(k < olds.len());
                assert(olds[k].address == a);
            }
        }
    }
}

spec fn device_wf(d: ModbusDevice) -> bool {
    &&& cb_wf(d.breaker@)
    &&& regs_unique(d.registers@)
    &&& coils_unique(d.coils@)
}

/// The register image of one device at `address`.
spec fn reg_of(d: ModbusDevice, address: u16) -> Option<u16> {
    reg_seq_at(d.registers@, address)
}

/// The coil image of one device at `address`.
spec fn coil_of(d: ModbusDevice, address: u16) -> Option<bool> {
    coil_seq_at(d.coils@, address)
}

impl ModbusDevice {
    /// Store `value` at register `address`, replacing any previous value.
    fn set_reg(&mut self, address: u16, value: u16)
        requires
            regs_unique(old(self).registers@),
        ensures
            regs_unique(final(self).registers@),
            reg_of(*final(self), address) == Some(value),
            forall|a: u16|
                a != address ==> #[trigger] reg_of(*final(self), a) == reg_of(*old(self), a),
            final(self).name == old(self).name,
            final(self).breaker == old(self).breaker,
            final(self).coils == old(self).coils,
            final(self).fault == old(self).fault,
    {
        let n = self.registers.len();
        let mut i: usize = 0;
        while i < n
            invariant
                regs_unique(self.registers@),
                self.registers@ == old(self).registers@,
                *self == *old(self),
                n == self.registers@.len(),
                i <= n,
                forall|k: int| 0 <= k < i ==> (#[trigger] self.registers@[k].address) != address,
            decreases n - i,
        {
            if self.registers[i].address == address {
                let ghost olds = self.registers@;
                self.registers[i].value = value;
                proof {
                    assert forall|k: int|
                        0 <= k < self.registers@.len() implies (
                        #[trigger] self.registers@[k].address) == olds[k].address by {}
                    lemma_reg_set(self.registers@, olds, address, i as int);
                }
                return ;
            }
            i = i + 1;
        }
        let ghost olds = self.registers@;
        self.registers.push(RegEntry { address, value });
        proof {
            let m = olds.len() as int;
            assert forall|x: int, y: int|
                0 <= x < y < self.registers@.len() implies self.registers@[x].address
                != self.registers@[y].address by {
                if y < m {
                } else {
                    assert(self.registers@[x].address != address);
                }
            }
            lemma_reg_set(self.registers@, olds, address, m);
        }
    }

    /// Store `value` at coil `address`, replacing any previous value.
    fn set_coil(&mut self, address: u16, value: bool)
        requires
            coils_unique(old(self).coils@),
        ensures
            coils_unique(final(self).coils@),
            coil_of(*final(self), address) == Some(value),
            forall|a: u16|
                a != address ==> #[trigger] coil_of(*final(self), a) == coil_of(*old(self), a),
            final(self).name == old(self).name,
            final(self).breaker == old(self).breaker,
            final(self).registers == old(self).registers,
            final(self).fault == old(self).fault,
    {
        let n = self.coils.len();
        let mut i: usize = 0;
        while i < n
            invariant
                coils_unique(self.coils@),
                self.coils@ == old(self).coils@,
                *self == *old(self),
                n == self.coils@.len(),
                i <= n,
                forall|k: int| 0 <= k < i ==> (#[trigger] self.coils@[k].address) != address,
            decreases n - i,
        {
            if self.coils[i].address == address {
                let ghost olds = self.coils@;
                self.coils[i].value = value;
                proof {
                    assert forall|k: int|
                        0 <= k < self.coils@.len() implies (#[trigger] self.coils@[k].address)
                        == olds[k].address by {}
                    lemma_coil_set(self.coils@, olds, address, i as int);
                }
                return ;
            }
            i = i + 1;
        }
        let ghost olds = self.coils@;
        self.coils.push(CoilEntry { address, value });
        proof {
            let m = olds.len() as int;
            assert forall|x: int, y: int|
                0 <= x < y < self.coils@.len() implies self.coils@[x].address
                != self.coils@[y].address by {
                if y < m {
                } else {
                    assert(self.coils@[x].address != address);
                }
            }
            lemma_coil_set(self.coils@, olds, address, m);
        }
    }
}

/// The wording of a write outcome's error, if any.
pub open spec fn spec_modbus_err_chars(r: Result<(), ModbusError>) -> Seq<char> {
    match r {
        Ok(_) => Seq::<char>::empty(),
        Err(ModbusError::DeviceNotFound) => "Device not found"@,
        Err(ModbusError::CircuitOpen) => "Circuit breaker open"@,
        Err(ModbusError::Device(m)) => m@,
    }
}

/// The exact relation a breaker-guarded register write establishes between
/// the actor before and after, the arguments, and the outcome.
pub open spec fn spec_write_register_rel(
    pre: ModbusActor,
    post: ModbusActor,
    name: Seq<char>,
    address: u16,
    value: u16,
    now: nat,
    r: Result<(), ModbusError>,
) -> bool {
    &&& post.wf()
    &&& (!pre.spec_has_device(name) ==> (r matches Err(ModbusError::DeviceNotFound)) && post
        == pre)
    &&& (pre.spec_has_device(name) ==> {
        let b0 = pre.spec_breaker(name);
        let probed = cb_step(b0, CbEvent::Probe { now_ms: now });
        &&& post.spec_has_device(name)
        &&& post.spec_fault(name) == pre.spec_fault(name)
        &&& (!cb_allows(b0, now) ==> (r matches Err(ModbusError::CircuitOpen))
            && post.spec_breaker(name) == probed && post.spec_reg(name, address) == pre.spec_reg(
            name,
            address,
        ))
        &&& (cb_allows(b0, now) && pre.spec_fault(name) is Some ==> (r matches Err(
            ModbusError::Device(m),
        ) && Some(m@) == pre.spec_fault(name)) && post.spec_breaker(name) == cb_step(
            probed,
            CbEvent::Failure { now_ms: now },
        ) && post.spec_reg(name, address) == pre.spec_reg(name, address))
        &&& (cb_allows(b0, now) && pre.spec_fault(name) is None ==> r is Ok && post.spec_breaker(
            name,
        ) == cb_step(probed, CbEvent::Success) && post.spec_reg(name, address) == Some(value))
        &&& (forall|a: u16|
            a != address ==> #[trigger] post.spec_reg(name, a) == pre.spec_reg(name, a))
        &&& (forall|a: u16| #[trigger] post.spec_coil(name, a) == pre.spec_coil(name, a))
    })
    &&& (forall|n: Seq<char>|
        #[trigger] post.spec_has_device(n) == pre.spec_has_device(n))
    &&& (forall|n: Seq<char>|
        n != name && pre.spec_has_device(n) ==> #[trigger] post.spec_breaker(n)
            == pre.spec_breaker(n) && post.spec_fault(n) == pre.spec_fault(n))
    &&& (forall|n: Seq<char>, a: u16|
        n != name && pre.spec_has_device(n) ==> #[trigger] post.spec_reg(n, a) == pre.spec_reg(
            n,
            a,
        ) && #[trigger] post.spec_coil(n, a) == pre.spec_coil(n, a))
}

/// Coil counterpart of [`spec_write_register_rel`].
pub open spec fn spec_write_coil_rel(
    pre: ModbusActor,
    post: ModbusActor,
    name: Seq<char>,
    address: u16,
    value: bool,
    now: nat,
    r: Result<(), ModbusError>,
) -> bool {
    &&& post.wf()
    &&& (!pre.spec_has_device(name) ==> (r matches Err(ModbusError::DeviceNotFound)) && post
        == pre)
    &&& (pre.spec_has_device(name) ==> {
        let b0 = pre.spec_breaker(name);
        let probed = cb_step(b0, CbEvent::Probe { now_ms: now });
        &&& post.spec_has_device(name)
        &&& post.spec_fault(name) == pre.spec_fault(name)
        &&& (!cb_allows(b0, now) ==> (r matches Err(ModbusError::CircuitOpen))
            && post.spec_breaker(name) == probed && post.spec_coil(name, address)
            == pre.spec_coil(name, address))
        &&& (cb_allows(b0, now) && pre.spec_fault(name) is Some ==> (r matches Err(
            ModbusError::Device(m),
        ) && Some(m@) == pre.spec_fault(name)) && post.spec_breaker(name) == cb_step(
            probed,
            CbEvent::Failure { now_ms: now },
        ) && post.spec_coil(name, address) == pre.spec_coil(name, address))
        &&& (cb_allows(b0, now) && pre.spec_fault(name) is None ==> r is Ok && post.spec_breaker(
            name,
        ) == cb_step(probed, CbEvent::Success) && post.spec_coil(name, address) == Some(value))
        &&& (forall|a: u16|
            a != address ==> #[trigger] post.spec_coil(name, a) == pre.spec_coil(name, a))
        &&& (forall|a: u16| #[trigger] post.spec_reg(name, a) == pre.spec_reg(name, a))
    })
    &&& (forall|n: Seq<char>|
        #[trigger] post.spec_has_device(n) == pre.spec_has_device(n))
    &&& (forall|n: Seq<char>|
        n != name && pre.spec_has_device(n) ==> #[trigger] post.spec_breaker(n)
            == pre.spec_breaker(n) && post.spec_fault(n) == pre.spec_fault(n))
    &&& (forall|n: Seq<char>, a: u16|
        n != name && pre.spec_has_device(n) ==> #[trigger] post.spec_reg(n, a) == pre.spec_reg(
            n,
            a,
        ) && #[trigger] post.spec_coil(n, a) == pre.spec_coil(n, a))
}

impl ModbusActor {
    /// Some device is named `name`.
    pub closed spec fn spec_has_device(&self, name: Seq<char>) -> bool {
        exists|i: int| 0 <= i < self.devices@.len() && self.devices@[i].name@ == name
    }

    spec fn dev_index(&self, name: Seq<char>) -> int {
        choose|i: int| 0 <= i < self.devices@.len() && self.devices@[i].name@ == name
    }

    /// The breaker model of device `name` (meaningful when present).
    pub closed spec fn spec_breaker(&self, name: Seq<char>) -> CbModel {
        self.devices@[self.dev_index(name)].breaker@
    }

    /// The injected fault of device `name`, if any.
    pub closed spec fn spec_fault(&self, name: Seq<char>) -> Option<Seq<char>> {
        match self.devices@[self.dev_index(name)].fault {
            Some(ref m) => Some(m@),
            None => None,
        }
    }

    /// The register image of device `name`: the value at `address`, if one
    /// was written.
    pub closed spec fn spec_reg(&self, name: Seq<char>, address: u16) -> Option<u16> {
        reg_of(self.devices@[self.dev_index(name)], address)
    }

    /// The coil image of device `name`: the value at `address`, if one was
    /// written.
    pub closed spec fn spec_coil(&self, name: Seq<char>, address: u16) -> Option<bool> {
        coil_of(self.devices@[self.dev_index(name)], address)
    }

    /// Structural invariant: unique device names, well-formed devices.
    pub closed spec fn wf(&self) -> bool {
        &&& devices_unique(self.devices@)
        &&& forall|i: int| 0 <= i < self.devices@.len() ==> device_wf(#[trigger] self.devices@[i])
    }

    /// An actor with no devices.
    pub fn new() -> (r: Self)
        ensures
            r.wf(),
            forall|n: Seq<char>| !r.spec_has_device(n),
    {
        ModbusActor { devices: Vec::new() }
    }

    proof fn lemma_dev_witness(&self, name: Seq<char>, i: int)
        requires
            self.wf(),
            0 <= i < self.devices@.len(),
            self.devices@[i].name@ == name,
        ensures
            self.spec_has_device(name),
            self.dev_index(name) == i,
    {
        assert(self.spec_has_device(name));
        let j = self.dev_index(name);
        assert(0 <= j < self.devices@.len() && self.devices@[j].name@ == name);
        if i < j {
            assert(self.devices@[i].name@ != self.devices@[j].name@);
        } else if j < i {
            assert(self.devices@[j].name@ != self.devices@[i].name@);
        }
    }

    /// Add a device with a closed breaker configured for `failure_threshold`
    /// failures and `recovery_timeout_ms` of cooling. Re-adding an existing
    /// name is a no-op.
    pub fn add_device(&mut self, name: &str, failure_threshold: u32, recovery_timeout_ms: u64)
        requires
            old(self).wf(),
            failure_threshold < 0xffff_ffff,
        ensures
            final(self).wf(),
            final(self).spec_has_device(name@),
            !old(self).spec_has_device(name@) ==> final(self).spec_breaker(name@) == (CbModel {
                state: crate::breaker::BreakerState::Closed,
                failures: 0,
                successes: 0,
                last_failure_ms: 0,
                failure_threshold: failure_threshold as nat,
                success_threshold: 2,
                recovery_timeout_ms: recovery_timeout_ms as nat,
            }) && final(self).spec_fault(name@) is None && (forall|a: u16|
                #[trigger] final(self).spec_reg(name@, a) is None && #[trigger] final(self).spec_coil(name@, a) is None),
            old(self).spec_has_device(name@) ==> *final(self) == *old(self),
            forall|n: Seq<char>|
                n != name@ ==> #[trigger] final(self).spec_has_device(n) == old(self).spec_has_device(n),
            forall|n: Seq<char>|
                n != name@ && old(self).spec_has_device(n) ==> #[trigger] final(self).spec_breaker(n) == old(self).spec_breaker(n) && final(self).spec_fault(n) == old(self).spec_fault(n),
            forall|n: Seq<char>, a: u16|
                n != name@ && old(self).spec_has_device(n) ==> #[trigger] final(self).spec_reg(
                    n,
                    a,
                ) == old(self).spec_reg(n, a) && #[trigger] final(self).spec_coil(n, a) == old(self).spec_coil(n, a),
    {
        match self.find_device(name) {
            Some(_) => {},
            None => {
                let ghost olds = self.devices@;
                let breaker = CircuitBreaker::new(name, failure_threshold, recovery_timeout_ms);
                self.devices.push(
                    ModbusDevice {
                        name: name.to_owned(),
                        breaker,
                        registers: Vec::new(),
                        coils: Vec::new(),
                        fault: None,
                    },
                );
                proof {
                    let n = olds.len() as int;
                    assert forall|x: int, y: int|
                        0 <= x < y < self.devices@.len() implies self.devices@[x].name@
                        != self.devices@[y].name@ by {
                        if y < n {
                        } else {
                            if self.devices@[x].name@ == name@ {
                                assert(old(self).spec_has_device(name@));
                            }
                        }
                    }
                    self.lemma_dev_witness(name@, n);
                    assert(self.devices@[n].registers@.len() == 0);
                    assert(self.devices@[n].coils@.len() == 0);
                    assert forall|m: Seq<char>| m != name@ implies #[trigger] self.spec_has_device(
                        m,
                    ) == old(self).spec_has_device(m) by {
                        if old(self).spec_has_device(m) {
                            let k = choose|k: int|
                                0 <= k < olds.len() && olds[k].name@ == m;
                            assert(self.devices@[k].name@ == m);
                        }
                        if self.spec_has_device(m) {
                            let k = choose|k: int|
                                0 <= k < self.devices@.len() && self.devices@[k].name@ == m;
                            assert(k < n);
                            assert(olds[k].name@ == m);
                        }
                    }
                    assert forall|m: Seq<char>|
                        m != name@ && old(self).spec_has_device(m) implies #[trigger] self
                        .spec_breaker(m) == old(self).spec_breaker(m) && self.spec_fault(m) == old(
                        self,
                    ).spec_fault(m) by {
                        let k = choose|k: int| 0 <= k < olds.len() && olds[k].name@ == m;
                        self.lemma_dev_witness(m, k);
                        old(self).lemma_dev_witness(m, k);
                        assert(self.devices@[k] == olds[k]);
                    }
                    assert forall|m: Seq<char>, a: u16|
                        m != name@ && old(self).spec_has_device(m) implies #[trigger] self
                        .spec_reg(m, a) == old(self).spec_reg(m, a) && #[trigger] self.spec_coil(
                        m,
                        a,
                    ) == old(self).spec_coil(m, a) by {
                        let k = choose|k: int| 0 <= k < olds.len() && olds[k].name@ == m;
                        self.lemma_dev_witness(m, k);
                        old(self).lemma_dev_witness(m, k);
                        assert(self.devices@[k] == olds[k]);
                    }
                }
            },
        }
    }

    /// The index of the device named `name`, if one exists.
    fn find_device(&self, name: &str) -> (r: Option<usize>)
        requires
            self.wf(),
        ensures
            match r {
                Some(i) => i < self.devices@.len() && self.devices@[i as int].name@ == name@
                    && self.spec_has_device(name@) && self.dev_index(name@) == i as int,
                None => !self.spec_has_device(name@),
            },
    {
        let n = self.devices.len();
        let mut i: usize = 0;
        while i < n
            invariant
                self.wf(),
                n == self.devices@.len(),
                i <= n,
                forall|k: int| 0 <= k < i ==> self.devices@[k].name@ != name@,
            decreases n - i,
        {
            if str_eq(self.devices[i].name.as_str(), name) {
                proof {
                    self.lemma_dev_witness(name@, i as int);
                }
                return Some(i);
            }
            i = i + 1;
        }
        None
    }

    /// Inject (or clear) a simulated device fault: while set, writes to the
    /// device fail with its message and count against the breaker.
    pub fn set_fault(&mut self, name: &str, fault: Option<String>) -> (r: bool)
        requires
            old(self).wf(),
        ensures
            final(self).wf(),
            r == old(self).spec_has_device(name@),
            forall|n: Seq<char>|
                #[trigger] final(self).spec_has_device(n) == old(self).spec_has_device(n),
            old(self).spec_has_device(name@) ==> final(self).spec_fault(name@) == (match fault {
                Some(ref m) => Some(m@),
                None => None::<Seq<char>>,
            }),
            old(self).spec_has_device(name@) ==> final(self).spec_breaker(name@) == old(self).spec_breaker(name@),
            forall|a: u16|
                old(self).spec_has_device(name@) ==> #[trigger] final(self).spec_reg(name@, a)
                    == old(self).spec_reg(name@, a) && #[trigger] final(self).spec_coil(name@, a)
                    == old(self).spec_coil(name@, a),
            forall|n: Seq<char>|
                n != name@ && old(self).spec_has_device(n) ==> #[trigger] final(self).spec_breaker(n) == old(self).spec_breaker(n) && final(self).spec_fault(n) == old(self).spec_fault(n),
            forall|n: Seq<char>, a: u16|
                n != name@ && old(self).spec_has_device(n) ==> #[trigger] final(self).spec_reg(
                    n,
                    a,
                ) == old(self).spec_reg(n, a) && #[trigger] final(self).spec_coil(n, a) == old(self).spec_coil(n, a),
    {
        match self.find_device(name) {
            Some(i) => {
                let ghost olds = self.devices@;
                self.devices[i].fault = fault;
                proof {
                    self.lemma_dev_update(olds, name@, i as int);
                }
                true
            },
            None => false,
        }
    }

    /// After updating the device at index `i` without changing its name,
    /// every device resolves as before (the updated one to its new value).
    proof fn lemma_dev_update(&self, olds: Seq<ModbusDevice>, name: Seq<char>, i: int)
        requires
            devices_unique(olds),
            self.devices@.len() == olds.len(),
            0 <= i < olds.len(),
            olds[i].name@ == name,
            self.devices@[i].name@ == name,
            device_wf(self.devices@[i]),
            forall|k: int| 0 <= k < olds.len() ==> device_wf(#[trigger] olds[k]),
            forall|k: int| 0 <= k < olds.len() && k != i ==> self.devices@[k] == olds[k],
        ensures
            self.wf(),
            self.spec_has_device(name),
            self.dev_index(name) == i,
            forall|n: Seq<char>|
                n != name ==> #[trigger] self.spec_has_device(n) == exists|k: int|
                    0 <= k < olds.len() && olds[k].name@ == n,
            forall|n: Seq<char>, k: int|
                #![trigger olds[k].name@, self.dev_index(n)]
                n != name && 0 <= k < olds.len() && olds[k].name@ == n ==> self.dev_index(n) == k
                    && self.devices@[k] == olds[k],
    {
        assert forall|x: int, y: int|
            0 <= x < y < self.devices@.len() implies self.devices@[x].name@
            != self.devices@[y].name@ by {
            assert(self.devices@[x].name@ == olds[x].name@);
            assert(self.devices@[y].name@ == olds[y].name@);
        }
        assert forall|k: int| 0 <= k < self.devices@.len() implies device_wf(
            #[trigger] self.devices@[k],
        ) by {
            if k != i {
                assert(self.devices@[k] == olds[k]);
            }
        }
        self.lemma_dev_witness(name, i);
        assert forall|n: Seq<char>| n != name implies #[trigger] self.spec_has_device(n)
            == exists|k: int| 0 <= k < olds.len() && olds[k].name@ == n by {
            if exists|k: int| 0 <= k < olds.len() && olds[k].name@ == n {
                let k = choose|k: int| 0 <= k < olds.len() && olds[k].name@ == n;
                assert(self.devices@[k].name@ == n);
            }
            if self.spec_has_device(n) {
                let k = choose|k: int|
                    0 <= k < self.devices@.len() && self.devices@[k].name@ == n;
                assert(olds[k].name@ == n);
            }
        }
        assert forall|n: Seq<char>, k: int|
            #![trigger olds[k].name@, self.dev_index(n)]
            n != name && 0 <= k < olds.len() && olds[k].name@ == n implies self.dev_index(n) == k
            && self.devices@[k] == olds[k] by {
            self.lemma_dev_witness(n, k);
        }
    }

    /// Write `value` to register `address` of device `name` at time
    /// `now_ms`.
    ///
    /// The call goes through the device's circuit breaker first: when it is
    /// open and still cooling the call fails fast with `CircuitOpen` and
    /// the wire (here: the register image and the fault) is not consulted.
    /// Otherwise a faulty device reports its fault (counting against the
    /// breaker); a healthy device stores the value and counts a success.
    pub fn write_register(&mut self, name: &str, address: u16, value: u16, now_ms: u64) -> (r:
        Result<(), ModbusError>)
        requires
            old(self).wf(),
        ensures
            spec_write_register_rel(
                *old(self),
                *final(self),
                name@,
                address,
                value,
                now_ms as nat,
                r,
            ),
            final(self).wf(),
            !old(self).spec_has_device(name@) ==> (r matches Err(ModbusError::DeviceNotFound))
                && *final(self) == *old(self),
            old(self).spec_has_device(name@) ==> ({
                let b0 = old(self).spec_breaker(name@);
                let probed = cb_step(b0, CbEvent::Probe { now_ms: now_ms as nat });
                &&& final(self).spec_has_device(name@)
                &&& final(self).spec_fault(name@) == old(self).spec_fault(name@)
                &&& (!cb_allows(b0, now_ms as nat) ==> (r matches Err(ModbusError::CircuitOpen))
                    && final(self).spec_breaker(name@) == probed && final(self).spec_reg(
                    name@,
                    address,
                ) == old(self).spec_reg(name@, address))
                &&& (cb_allows(b0, now_ms as nat) && old(self).spec_fault(name@) is Some ==> (
                r matches Err(ModbusError::Device(m)) && Some(m@) == old(self).spec_fault(name@))
                    && final(self).spec_breaker(name@) == cb_step(
                    probed,
                    CbEvent::Failure { now_ms: now_ms as nat },
                ) && final(self).spec_reg(name@, address) == old(self).spec_reg(name@, address))
                &&& (cb_allows(b0, now_ms as nat) && old(self).spec_fault(name@) is None ==> r
                    is Ok && final(self).spec_breaker(name@) == cb_step(probed, CbEvent::Success)
                    && final(self).spec_reg(name@, address) == Some(value))
                &&& (forall|a: u16|
                    a != address ==> #[trigger] final(self).spec_reg(name@, a) == old(self).spec_reg(name@, a))
                &&& (forall|a: u16|
                    #[trigger] final(self).spec_coil(name@, a) == old(self).spec_coil(name@, a))
            }),
            forall|n: Seq<char>|
                #[trigger] final(self).spec_has_device(n) == old(self).spec_has_device(n),
            forall|n: Seq<char>|
                n != name@ && old(self).spec_has_device(n) ==> #[trigger] final(self).spec_breaker(n) == old(self).spec_breaker(n) && final(self).spec_fault(n) == old(self).spec_fault(n),
            forall|n: Seq<char>, a: u16|
                n != name@ && old(self).spec_has_device(n) ==> #[trigger] final(self).spec_reg(
                    n,
                    a,
                ) == old(self).spec_reg(n, a) && #[trigger] final(self).spec_coil(n, a) == old(self).spec_coil(n, a),
    {
        let found = self.find_device(name);
        match found {
            None => Err(ModbusError::DeviceNotFound),
            Some(i) => {
                let ghost olds = self.devices@;
                let ghost mut mid = self.devices@;
                proof {
                    assert(device_wf(olds[i as int]));
                }
                let open = self.devices[i].breaker.is_open(now_ms);
                let result: Result<(), ModbusError> = if open {
                    Err(ModbusError::CircuitOpen)
                } else {
                    let fault_msg: Option<String> = match &self.devices[i].fault {
                        Some(m) => Some(m.clone()),
                        None => None,
                    };
                    match fault_msg {
                        Some(m) => {
                            self.devices[i].breaker.record_failure(now_ms);
                            Err(ModbusError::Device(m))
                        },
                        None => {
                            self.devices[i].breaker.record_success();
                            proof {
                                mid = self.devices@;
                            }
                            self.devices[i].set_reg(address, value);
                            Ok(())
                        },
                    }
                };
                proof {
                    crate::breaker::lemma_cb_step_preserves_wf(
                        olds[i as int].breaker@,
                        CbEvent::Probe { now_ms: now_ms as nat },
                    );
                    self.lemma_dev_update(olds, name@, i as int);
                    assert(self.devices@[i as int].coils == olds[i as int].coils);
                    if open || olds[i as int].fault is Some {
                        assert(self.devices@[i as int].registers == olds[i as int].registers);
                        assert(self.devices@[i as int].coils == olds[i as int].coils);
                    } else {
                        assert(mid[i as int].registers == olds[i as int].registers);
                        assert(mid[i as int].coils == olds[i as int].coils);
                        assert forall|a: u16|
                            a != address implies #[trigger] reg_of(self.devices@[i as int], a)
                            == reg_of(olds[i as int], a) by {
                            assert(reg_of(self.devices@[i as int], a) == reg_of(mid[i as int], a));
                        }
                    }
                }
                result
            },
        }
    }

    /// Write `value` to coil `address` of device `name` at time `now_ms`;
    /// the same breaker gating as [`Self::write_register`].
    pub fn write_coil(&mut self, name: &str, address: u16, value: bool, now_ms: u64) -> (r:
        Result<(), ModbusError>)
        requires
            old(self).wf(),
        ensures
            spec_write_coil_rel(*old(self), *final(self), name@, address, value, now_ms as nat, r),
            final(self).wf(),
            !old(self).spec_has_device(name@) ==> (r matches Err(ModbusError::DeviceNotFound))
                && *final(self) == *old(self),
            old(self).spec_has_device(name@) ==> ({
                let b0 = old(self).spec_breaker(name@);
                let probed = cb_step(b0, CbEvent::Probe { now_ms: now_ms as nat });
                &&& final(self).spec_has_device(name@)
                &&& final(self).spec_fault(name@) == old(self).spec_fault(name@)
                &&& (!cb_allows(b0, now_ms as nat) ==> (r matches Err(ModbusError::CircuitOpen))
                    && final(self).spec_breaker(name@) == probed && final(self).spec_coil(
                    name@,
                    address,
                ) == old(self).spec_coil(name@, address))
                &&& (cb_allows(b0, now_ms as nat) && old(self).spec_fault(name@) is Some ==> (
                r matches Err(ModbusError::Device(m)) && Some(m@) == old(self).spec_fault(name@))
                    && final(self).spec_breaker(name@) == cb_step(
                    probed,
                    CbEvent::Failure { now_ms: now_ms as nat },
                ) && final(self).spec_coil(name@, address) == old(self).spec_coil(name@, address))
                &&& (cb_allows(b0, now_ms as nat) && old(self).spec_fault(name@) is None ==> r
                    is Ok && final(self).spec_breaker(name@) == cb_step(probed, CbEvent::Success)
                    && final(self).spec_coil(name@, address) == Some(value))
                &&& (forall|a: u16|
                    a != address ==> #[trigger] final(self).spec_coil(name@, a) == old(self).spec_coil(name@, a))
                &&& (forall|a: u16|
                    #[trigger] final(self).spec_reg(name@, a) == old(self).spec_reg(name@, a))
            }),
            forall|n: Seq<char>|
                #[trigger] final(self).spec_has_device(n) == old(self).spec_has_device(n),
            forall|n: Seq<char>|
                n != name@ && old(self).spec_has_device(n) ==> #[trigger] final(self).spec_breaker(n) == old(self).spec_breaker(n) && final(self).spec_fault(n) == old(self).spec_fault(n),
            forall|n: Seq<char>, a: u16|
                n != name@ && old(self).spec_has_device(n) ==> #[trigger] final(self).spec_reg(
                    n,
                    a,
                ) == old(self).spec_reg(n, a) && #[trigger] final(self).spec_coil(n, a) == old(self).spec_coil(n, a),
    {
        let found = self.find_device(name);
        match found {
            None => Err(ModbusError::DeviceNotFound),
            Some(i) => {
                let ghost olds = self.devices@;
                let ghost mut mid = self.devices@;
                proof {
                    assert(device_wf(olds[i as int]));
                }
                let open = self.devices[i].breaker.is_open(now_ms);
                let result: Result<(), ModbusError> = if open {
                    Err(ModbusError::CircuitOpen)
                } else {
                    let fault_msg: Option<String> = match &self.devices[i].fault {
                        Some(m) => Some(m.clone()),
                        None => None,
                    };
                    match fault_msg {
                        Some(m) => {
                            self.devices[i].breaker.record_failure(now_ms);
                            Err(ModbusError::Device(m))
                        },
                        None => {
                            self.devices[i].breaker.record_success();
                            proof {
                                mid = self.devices@;
                            }
                            self.devices[i].set_coil(address, value);
                            Ok(())
                        },
                    }
                };
                proof {
                    crate::breaker::lemma_cb_step_preserves_wf(
                        olds[i as int].breaker@,
                        CbEvent::Probe { now_ms: now_ms as nat },
                    );
                    self.lemma_dev_update(olds, name@, i as int);
                    assert(self.devices@[i as int].registers == olds[i as int].registers);
                    if open || olds[i as int].fault is Some {
                        assert(self.devices@[i as int].registers == olds[i as int].registers);
                        assert(self.devices@[i as int].coils == olds[i as int].coils);
                    } else {
                        assert(mid[i as int].registers == olds[i as int].registers);
                        assert(mid[i as int].coils == olds[i as int].coils);
                        assert forall|a: u16|
                            a != address implies #[trigger] coil_of(self.devices@[i as int], a)
                            == coil_of(olds[i as int], a) by {
                            assert(coil_of(self.devices@[i as int], a) == coil_of(mid[i as int], a));
                        }
                    }
                }
                result
            },
        }
    }

    /// Number of configured devices.
    pub closed spec fn spec_device_count(&self) -> nat {
        self.devices@.len()
    }

    /// The name of the device at position `k` of the configuration order.
    pub closed spec fn spec_device_name(&self, k: int) -> Seq<char> {
        self.devices@[k].name@
    }

    /// The register image of the device at position `k`, as (address,
    /// value) pairs in write order.
    pub closed spec fn spec_device_regs(&self, k: int) -> Seq<(u16, u16)> {
        self.devices@[k].registers@.map_values(|e: RegEntry| (e.address, e.value))
    }

    /// Connect every device, best effort, returning the per-device error
    /// messages. In simulation mode there is no wire, so every device
    /// connects and the list is empty.
    pub fn connect_all(&self) -> (r: Vec<String>)
        ensures
            r@.len() == 0,
    {
        Vec::new()
    }

    /// Disconnect every device. In simulation mode there is nothing to
    /// tear down; the device images and breakers are left as they are.
    pub fn disconnect_all(&mut self)
        ensures
            *final(self) == *old(self),
    {
    }

    /// Every device's register image: (device name, list of (address,
    /// value) pairs written so far), in configuration order.
    pub fn read_all(&self) -> (r: Vec<(String, Vec<(u16, u16)>)>)
        requires
            self.wf(),
        ensures
            r@.len() == self.spec_device_count(),
            forall|k: int|
                0 <= k < r@.len() ==> self.spec_has_device((#[trigger] r@[k].0)@) && r@[k].0@
                    == self.spec_device_name(k) && r@[k].1@ == self.spec_device_regs(k),
    {
        let n = self.devices.len();
        let mut r: Vec<(String, Vec<(u16, u16)>)> = Vec::new();
        let mut i: usize = 0;
        while i < n
            invariant
                self.wf(),
                n == self.devices@.len(),
                i <= n,
                r@.len() == i,
                forall|k: int|
                    0 <= k < r@.len() ==> self.spec_has_device((#[trigger] r@[k].0)@) && r@[k].0@
                        == self.spec_device_name(k) && r@[k].1@ == self.spec_device_regs(k),
            decreases n - i,
        {
            let d = &self.devices[i];
            let mut regs: Vec<(u16, u16)> = Vec::new();
            let m = d.registers.len();
            let mut j: usize = 0;
            while j < m
                invariant
                    m == d.registers@.len(),
                    j <= m,
                    regs@ =~= d.registers@.subrange(0, j as int).map_values(
                        |e: RegEntry| (e.address, e.value),
                    ),
                decreases m - j,
            {
                regs.push((d.registers[j].address, d.registers[j].value));
                proof {
                    assert(d.registers@.subrange(0, j + 1 as int).map_values(
                        |e: RegEntry| (e.address, e.value),
                    ) =~= d.registers@.subrange(0, j as int).map_values(
                        |e: RegEntry| (e.address, e.value),
                    ).push((d.registers@[j as int].address, d.registers@[j as int].value)));
                }
                j = j + 1;
            }
            proof {
                assert(d.registers@.subrange(0, m as int) =~= d.registers@);
                assert(regs@ =~= self.spec_device_regs(i as int));
            }
            let ghost oldr = r@;
            r.push((d.name.clone(), regs));
            proof {
                assert(self.devices@[i as int].name@ == r@[i as int].0@);
                assert forall|k: int|
                    0 <= k < r@.len() implies self.spec_has_device((#[trigger] r@[k].0)@)
                    && r@[k].0@ == self.spec_device_name(k) && r@[k].1@ == self.spec_device_regs(
                    k,
                ) by {
                    if k < oldr.len() {
                        assert(r@[k] == oldr[k]);
                    } else {
                        assert(self.spec_has_device(self.devices@[i as int].name@));
                    }
                }
            }
            i = i + 1;
        }
        r
    }

    /// The state name of the breaker of device `name`, for diagnostics.
    pub fn breaker_state(&self, name: &str) -> (r: Option<&'static str>)
        requires
            self.wf(),
        ensures
            r is Some <==> self.spec_has_device(name@),
            r matches Some(t) ==> {
                let st = self.spec_breaker(name@).state;
                &&& (st == crate::breaker::BreakerState::Closed ==> t@ == "closed"@)
                &&& (st == crate::breaker::BreakerState::Open ==> t@ == "open"@)
                &&& (st == crate::breaker::BreakerState::HalfOpen ==> t@ == "half_open"@)
            },
    {
        match self.find_device(name) {
            Some(i) => Some(self.devices[i].breaker.state_name()),
            None => None,
        }
    }
}

} // verus!
