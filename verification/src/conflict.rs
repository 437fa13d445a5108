//! Write-conflict arbitration for one execution cycle.
//!
//! Several scripts may run in the same tick and independently decide to
//! drive the same GPIO pin, Modbus register or coil. The detector keeps the
//! pending write per target and classifies each new attempt: first writer
//! and self-overwrite proceed, an identical value from another script is a
//! duplicate (the hardware call is suppressed), a different value from
//! another script is a conflict (last write wins, with a diagnostic).

use vstd::prelude::*;

use crate::text::{chars_to_string, push_dec, push_str_chars, spec_dec, str_eq};

verus! {

/// The value a script wants written.
#[derive(Clone, Copy, PartialEq, Eq, Structural, Debug)]
pub enum WriteValue {
    Bool(bool),
    U16(u16),
}

/// A pending write: who asked, and what for.
#[derive(Clone, Debug)]
pub struct PendingWrite {
    pub script_id: String,
    pub value: WriteValue,
}

/// The mathematical shape of a pending write.
pub struct PendingV {
    pub script: Seq<char>,
    pub value: WriteValue,
}

/// The view of one pending write.
pub open spec fn pv(p: PendingWrite) -> PendingV {
    PendingV { script: p.script_id@, value: p.value }
}

/// Outcome of arbitration for one attempted write.
#[derive(Debug)]
pub enum ConflictResult {
    /// No other script holds this target: proceed.
    NoConflict,
    /// Another script set a different value; last write wins, the message
    /// describes the clash.
    Conflict { message: String },
    /// Another script already set the same value: suppress the hardware
    /// call.
    Duplicate,
}

// ---------------------------------------------------------------------------
// Pin-keyed table (GPIO).
// ---------------------------------------------------------------------------

struct PinEntry {
    pin: u8,
    write: PendingWrite,
}

/// Pending writes keyed by GPIO pin; at most one entry per pin.
pub struct PinTable {
    entries: Vec<PinEntry>,
}

/// No two entries share a pin.
spec fn pin_unique(s: Seq<PinEntry>) -> bool {
    forall|i: int, j: int| 0 <= i < j < s.len() ==> s[i].pin != s[j].pin
}

impl PinTable {
    /// Some entry holds `pin`.
    pub closed spec fn spec_has(&self, pin: u8) -> bool {
        exists|i: int| 0 <= i < self.entries@.len() && self.entries@[i].pin == pin
    }

    /// The pending write for `pin` (meaningful when `spec_has`).
    pub closed spec fn spec_at(&self, pin: u8) -> PendingV {
        let i = choose|i: int| 0 <= i < self.entries@.len() && self.entries@[i].pin == pin;
        pv(self.entries@[i].write)
    }

    /// Number of pins with a pending write.
    pub closed spec fn spec_len(&self) -> nat {
        self.entries@.len()
    }

    /// Structural invariant: unique pins.
    pub closed spec fn wf(&self) -> bool {
        pin_unique(self.entries@)
    }

    proof fn lemma_at_witness(&self, pin: u8, i: int)
        requires
            self.wf(),
            0 <= i < self.entries@.len(),
            self.entries@[i].pin == pin,
        ensures
            self.spec_has(pin),
            self.spec_at(pin) == pv(self.entries@[i].write),
    {
        assert(self.spec_has(pin));
        let j = choose|j: int| 0 <= j < self.entries@.len() && self.entries@[j].pin == pin;
        if i < j {
            assert(self.entries@[i].pin != self.entries@[j].pin);
        } else if j < i {
            assert(self.entries@[j].pin != self.entries@[i].pin);
        }
    }

    fn new() -> (r: Self)
        ensures
            r.wf(),
            r.spec_len() == 0,
            forall|p: u8| !r.spec_has(p),
    {
        PinTable { entries: Vec::new() }
    }

    fn clear(&mut self)
        ensures
            final(self).wf(),
            final(self).spec_len() == 0,
            forall|p: u8| !final(self).spec_has(p),
    {
        self.entries.clear();
    }

    /// The index of the entry for `pin`, if one exists.
    fn find(&self, pin: u8) -> (r: Option<usize>)
        requires
            self.wf(),
        ensures
            match r {
                Some(i) => i < self.entries@.len() && self.entries@[i as int].pin == pin
                    && self.spec_has(pin) && self.spec_at(pin) == pv(
                    self.entries@[i as int].write,
                ),
                None => !self.spec_has(pin),
            },
    {
        let n = self.entries.len();
        let mut i: usize = 0;
        while i < n
            invariant
                self.wf(),
                n == self.entries@.len(),
                i <= n,
                forall|k: int| 0 <= k < i ==> self.entries@[k].pin != pin,
            decreases n - i,
        {
            if self.entries[i].pin == pin {
                proof {
                    self.lemma_at_witness(pin, i as int);
                }
                return Some(i);
            }
            i = i + 1;
        }
        None
    }

    /// Record `write` as the pending write for `pin`, replacing any previous
    /// entry.
    fn set(&mut self, pin: u8, write: PendingWrite)
        requires
            old(self).wf(),
        ensures
            final(self).wf(),
            final(self).spec_has(pin),
            final(self).spec_at(pin) == pv(write),
            forall|p: u8|
                p != pin ==> #[trigger] final(self).spec_has(p) == old(self).spec_has(p),
            forall|p: u8|
                p != pin && old(self).spec_has(p) ==> #[trigger] final(self).spec_at(p) == old(
                    self,
                ).spec_at(p),
            final(self).spec_len() == if old(self).spec_has(pin) {
                old(self).spec_len()
            } else {
                old(self).spec_len() + 1
            },
    {
        let found = self.find(pin);
        match found {
            Some(i) => {
                let ghost olds = self.entries@;
                self.entries[i] = PinEntry { pin, write };
                proof {
                    assert(olds[i as int].pin == pin);
                    assert forall|k: int| 0 <= k < self.entries@.len() implies self.entries@[k].pin
                        == olds[k].pin by {}
                    self.lemma_at_witness(pin, i as int);
                    assert forall|p: u8| p != pin implies #[trigger] self.spec_has(p) == old(
                        self,
                    ).spec_has(p) by {
                        if old(self).spec_has(p) {
                            let k = choose|k: int|
                                0 <= k < olds.len() && olds[k].pin == p;
                            assert(self.entries@[k].pin == p);
                        }
                        if self.spec_has(p) {
                            let k = choose|k: int|
                                0 <= k < self.entries@.len() && self.entries@[k].pin == p;
                            assert(olds[k].pin == p);
                        }
                    }
                    assert forall|p: u8| p != pin && old(self).spec_has(p) implies #[trigger] self
                        .spec_at(p) == old(self).spec_at(p) by {
                        let k = choose|k: int| 0 <= k < olds.len() && olds[k].pin == p;
                        self.lemma_at_witness(p, k);
                        old(self).lemma_at_witness(p, k);
                    }
                    old(self).lemma_at_witness(pin, i as int);
                }
            },
            None => {
                let ghost olds = self.entries@;
                self.entries.push(PinEntry { pin, write });
                proof {
                    let n = olds.len() as int;
                    assert forall|i: int, j: int|
                        0 <= i < j < self.entries@.len() implies self.entries@[i].pin
                        != self.entries@[j].pin by {
                        if j < n {
                        } else {
                            assert(self.entries@[j].pin == pin);
                            assert(self.entries@[i].pin != pin) by {
                                if self.entries@[i].pin == pin {
                                    assert(old(self).spec_has(pin));
                                }
                            }
                        }
                    }
                    self.lemma_at_witness(pin, n);
                    assert forall|p: u8| p != pin implies #[trigger] self.spec_has(p) == old(
                        self,
                    ).spec_has(p) by {
                        if old(self).spec_has(p) {
                            let k = choose|k: int| 0 <= k < olds.len() && olds[k].pin == p;
                            assert(self.entries@[k].pin == p);
                        }
                        if self.spec_has(p) {
                            let k = choose|k: int|
                                0 <= k < self.entries@.len() && self.entries@[k].pin == p;
                            assert(k < n);
                            assert(olds[k].pin == p);
                        }
                    }
                    assert forall|p: u8| p != pin && old(self).spec_has(p) implies #[trigger] self
                        .spec_at(p) == old(self).spec_at(p) by {
                        let k = choose|k: int| 0 <= k < olds.len() && olds[k].pin == p;
                        self.lemma_at_witness(p, k);
                        old(self).lemma_at_witness(p, k);
                    }
                }
            },
        }
    }

    /// Number of pending pin writes.
    fn len(&self) -> (r: usize)
        ensures
            r as nat == self.spec_len(),
    {
        self.entries.len()
    }
}

// ---------------------------------------------------------------------------
// (device, address)-keyed table (Modbus registers and coils).
// ---------------------------------------------------------------------------

struct AddrEntry {
    device: String,
    address: u16,
    write: PendingWrite,
}

/// Pending writes keyed by device name and address; at most one entry per
/// key.
pub struct AddrTable {
    entries: Vec<AddrEntry>,
}

/// No two entries share a (device, address) key.
spec fn addr_unique(s: Seq<AddrEntry>) -> bool {
    forall|i: int, j: int|
        0 <= i < j < s.len() ==> !(s[i].device@ == s[j].device@ && s[i].address == s[j].address)
}

impl AddrTable {
    /// Some entry holds (`device`, `address`).
    pub closed spec fn spec_has(&self, device: Seq<char>, address: u16) -> bool {
        exists|i: int|
            0 <= i < self.entries@.len() && self.entries@[i].device@ == device
                && self.entries@[i].address == address
    }

    /// The pending write for (`device`, `address`) (meaningful when
    /// `spec_has`).
    pub closed spec fn spec_at(&self, device: Seq<char>, address: u16) -> PendingV {
        let i = choose|i: int|
            0 <= i < self.entries@.len() && self.entries@[i].device@ == device
                && self.entries@[i].address == address;
        pv(self.entries@[i].write)
    }

    /// Number of keys with a pending write.
    pub closed spec fn spec_len(&self) -> nat {
        self.entries@.len()
    }

    /// Structural invariant: unique keys.
    pub closed spec fn wf(&self) -> bool {
        addr_unique(self.entries@)
    }

    proof fn lemma_at_witness(&self, device: Seq<char>, address: u16, i: int)
        requires
            self.wf(),
            0 <= i < self.entries@.len(),
            self.entries@[i].device@ == device,
            self.entries@[i].address == address,
        ensures
            self.spec_has(device, address),
            self.spec_at(device, address) == pv(self.entries@[i].write),
    {
        assert(self.spec_has(device, address));
        let j = choose|j: int|
            0 <= j < self.entries@.len() && self.entries@[j].device@ == device
                && self.entries@[j].address == address;
        if i < j {
            assert(!(self.entries@[i].device@ == self.entries@[j].device@
                && self.entries@[i].address == self.entries@[j].address));
        } else if j < i {
            assert(!(self.entries@[j].device@ == self.entries@[i].device@
                && self.entries@[j].address == self.entries@[i].address));
        }
    }

    fn new() -> (r: Self)
        ensures
            r.wf(),
            r.spec_len() == 0,
            forall|d: Seq<char>, a: u16| !r.spec_has(d, a),
    {
        AddrTable { entries: Vec::new() }
    }

    fn clear(&mut self)
        ensures
            final(self).wf(),
            final(self).spec_len() == 0,
            forall|d: Seq<char>, a: u16| !final(self).spec_has(d, a),
    {
        self.entries.clear();
    }

    /// The index of the entry for (`device`, `address`), if one exists.
    fn find(&self, device: &str, address: u16) -> (r: Option<usize>)
        requires
            self.wf(),
        ensures
            match r {
                Some(i) => i < self.entries@.len() && self.entries@[i as int].device@ == device@
                    && self.entries@[i as int].address == address && self.spec_has(
                    device@,
                    address,
                ) && self.spec_at(device@, address) == pv(self.entries@[i as int].write),
                None => !self.spec_has(device@, address),
            },
    {
        let n = self.entries.len();
        let mut i: usize = 0;
        while i < n
            invariant
                self.wf(),
                n == self.entries@.len(),
                i <= n,
                forall|k: int|
                    0 <= k < i ==> !(self.entries@[k].device@ == device@ && self.entries@[k].address
                        == address),
            decreases n - i,
        {
            let e = &self.entries[i];
            if e.address == address && str_eq(e.device.as_str(), device) {
                proof {
                    self.lemma_at_witness(device@, address, i as int);
                }
                return Some(i);
            }
            i = i + 1;
        }
        None
    }

    /// Record `write` as the pending write for (`device`, `address`),
    /// replacing any previous entry.
    fn set(&mut self, device: &str, address: u16, write: PendingWrite)
        requires
            old(self).wf(),
        ensures
            final(self).wf(),
            final(self).spec_has(device@, address),
            final(self).spec_at(device@, address) == pv(write),
            forall|d: Seq<char>, a: u16|
                !(d == device@ && a == address) ==> #[trigger] final(self).spec_has(d, a) == old(
                    self,
                ).spec_has(d, a),
            forall|d: Seq<char>, a: u16|
                !(d == device@ && a == address) && old(self).spec_has(d, a)
                    ==> #[trigger] final(self).spec_at(d, a) == old(self).spec_at(d, a),
            final(self).spec_len() == if old(self).spec_has(device@, address) {
                old(self).spec_len()
            } else {
                old(self).spec_len() + 1
            },
    {
        let found = self.find(device, address);
        match found {
            Some(i) => {
                let ghost olds = self.entries@;
                self.entries[i] = AddrEntry { device: device.to_owned(), address, write };
                proof {
                    assert(olds[i as int].device@ == device@ && olds[i as int].address == address);
                    assert forall|k: int| 0 <= k < self.entries@.len() implies self.entries@[k].device@
                        == olds[k].device@ && self.entries@[k].address == olds[k].address by {}
                    self.lemma_at_witness(device@, address, i as int);
                    assert forall|d: Seq<char>, a: u16|
                        !(d == device@ && a == address) implies #[trigger] self.spec_has(d, a)
                        == old(self).spec_has(d, a) by {
                        if old(self).spec_has(d, a) {
                            let k = choose|k: int|
                                0 <= k < olds.len() && olds[k].device@ == d && olds[k].address
                                    == a;
                            assert(self.entries@[k].device@ == d && self.entries@[k].address == a);
                        }
                        if self.spec_has(d, a) {
                            let k = choose|k: int|
                                0 <= k < self.entries@.len() && self.entries@[k].device@ == d
                                    && self.entries@[k].address == a;
                            assert(olds[k].device@ == d && olds[k].address == a);
                        }
                    }
                    assert forall|d: Seq<char>, a: u16|
                        !(d == device@ && a == address) && old(self).spec_has(d, a)
                        implies #[trigger] self.spec_at(d, a) == old(self).spec_at(d, a) by {
                        let k = choose|k: int|
                            0 <= k < olds.len() && olds[k].device@ == d && olds[k].address == a;
                        self.lemma_at_witness(d, a, k);
                        old(self).lemma_at_witness(d, a, k);
                    }
                    old(self).lemma_at_witness(device@, address, i as int);
                }
            },
            None => {
                let ghost olds = self.entries@;
                self.entries.push(AddrEntry { device: device.to_owned(), address, write });
                proof {
                    let n = olds.len() as int;
                    assert forall|i: int, j: int|
                        0 <= i < j < self.entries@.len() implies !(self.entries@[i].device@
                        == self.entries@[j].device@ && self.entries@[i].address
                        == self.entries@[j].address) by {
                        if j < n {
                        } else {
                            if self.entries@[i].device@ == device@ && self.entries@[i].address
                                == address {
                                assert(old(self).spec_has(device@, address));
                            }
                        }
                    }
                    self.lemma_at_witness(device@, address, n);
                    assert forall|d: Seq<char>, a: u16|
                        !(d == device@ && a == address) implies #[trigger] self.spec_has(d, a)
                        == old(self).spec_has(d, a) by {
                        if old(self).spec_has(d, a) {
                            let k = choose|k: int|
                                0 <= k < olds.len() && olds[k].device@ == d && olds[k].address
                                    == a;
                            assert(self.entries@[k].device@ == d && self.entries@[k].address == a);
                        }
                        if self.spec_has(d, a) {
                            let k = choose|k: int|
                                0 <= k < self.entries@.len() && self.entries@[k].device@ == d
                                    && self.entries@[k].address == a;
                            assert(k < n);
                            assert(olds[k].device@ == d && olds[k].address == a);
                        }
                    }
                    assert forall|d: Seq<char>, a: u16|
                        !(d == device@ && a == address) && old(self).spec_has(d, a)
                        implies #[trigger] self.spec_at(d, a) == old(self).spec_at(d, a) by {
                        let k = choose|k: int|
                            0 <= k < olds.len() && olds[k].device@ == d && olds[k].address == a;
                        self.lemma_at_witness(d, a, k);
                        old(self).lemma_at_witness(d, a, k);
                    }
                }
            },
        }
    }

    /// Number of pending writes in this table.
    fn len(&self) -> (r: usize)
        ensures
            r as nat == self.spec_len(),
    {
        self.entries.len()
    }
}

// ---------------------------------------------------------------------------
// The detector.
// ---------------------------------------------------------------------------

/// "HIGH" or "LOW", the way GPIO levels are written in diagnostics.
pub open spec fn spec_level(b: bool) -> Seq<char> {
    if b {
        "HIGH"@
    } else {
        "LOW"@
    }
}

/// "true" or "false", the way coil values are written in diagnostics.
pub open spec fn spec_bool_chars(b: bool) -> Seq<char> {
    if b {
        "true"@
    } else {
        "false"@
    }
}

/// The diagnostic for a GPIO conflict.
pub open spec fn spec_gpio_conflict_msg(
    pin: u8,
    new_script: Seq<char>,
    new_value: bool,
    old_script: Seq<char>,
    old_value: bool,
) -> Seq<char> {
    "GPIO CONFLICT: Pin "@ + spec_dec(pin as nat) + " - Script '"@ + new_script + "' wants "@
        + spec_level(new_value) + ", but '"@ + old_script + "' already set "@ + spec_level(
        old_value,
    )
}

/// The diagnostic for a Modbus register conflict.
pub open spec fn spec_modbus_conflict_msg(
    device: Seq<char>,
    address: u16,
    new_script: Seq<char>,
    new_value: u16,
    old_script: Seq<char>,
    old_value: u16,
) -> Seq<char> {
    "MODBUS CONFLICT: "@ + device + ":"@ + spec_dec(address as nat) + " - Script '"@ + new_script
        + "' wants "@ + spec_dec(new_value as nat) + ", but '"@ + old_script + "' already set "@
        + spec_dec(old_value as nat)
}

/// The diagnostic for a Modbus coil conflict.
pub open spec fn spec_coil_conflict_msg(
    device: Seq<char>,
    address: u16,
    new_script: Seq<char>,
    new_value: bool,
    old_script: Seq<char>,
    old_value: bool,
) -> Seq<char> {
    "COIL CONFLICT: "@ + device + ":"@ + spec_dec(address as nat) + " - Script '"@ + new_script
        + "' wants "@ + spec_bool_chars(new_value) + ", but '"@ + old_script + "' already set "@
        + spec_bool_chars(old_value)
}

/// The arbitration verdict for one attempt, as a relation between the prior
/// pending write (if any) and the new one. `NoConflict` when the target is
/// free or re-written by the same script; `Duplicate` when another script
/// already set the same value; conflict otherwise.
pub open spec fn spec_verdict(
    prior: Option<PendingV>,
    script: Seq<char>,
    value: WriteValue,
) -> ConflictKind {
    match prior {
        None => ConflictKind::KindNoConflict,
        Some(p) => {
            if p.script == script {
                ConflictKind::KindNoConflict
            } else if p.value == value {
                ConflictKind::KindDuplicate
            } else {
                ConflictKind::KindConflict
            }
        },
    }
}

/// The kind of a [`ConflictResult`], without the diagnostic text.
#[derive(Clone, Copy, PartialEq, Eq, Structural, Debug)]
pub enum ConflictKind {
    KindNoConflict,
    KindConflict,
    KindDuplicate,
}

impl ConflictResult {
    /// The kind of this result.
    pub open spec fn spec_kind(&self) -> ConflictKind {
        match self {
            ConflictResult::NoConflict => ConflictKind::KindNoConflict,
            ConflictResult::Conflict { .. } => ConflictKind::KindConflict,
            ConflictResult::Duplicate => ConflictKind::KindDuplicate,
        }
    }

    /// Whether the downstream hardware call must be suppressed: only a
    /// duplicate suppresses it.
    pub fn suppresses_write(&self) -> (r: bool)
        ensures
            r == (self.spec_kind() == ConflictKind::KindDuplicate),
    {
        match self {
            ConflictResult::Duplicate => true,
            _ => false,
        }
    }
}

/// Conflict detector for GPIO, Modbus register and coil writes within one
/// tick.
pub struct ConflictDetector {
    gpio_writes: PinTable,
    modbus_writes: AddrTable,
    coil_writes: AddrTable,
}

impl ConflictDetector {
    /// The pending GPIO write for `pin`, if any.
    pub closed spec fn spec_gpio(&self, pin: u8) -> Option<PendingV> {
        if self.gpio_writes.spec_has(pin) {
            Some(self.gpio_writes.spec_at(pin))
        } else {
            None
        }
    }

    /// The pending register write for (`device`, `address`), if any.
    pub closed spec fn spec_modbus(&self, device: Seq<char>, address: u16) -> Option<PendingV> {
        if self.modbus_writes.spec_has(device, address) {
            Some(self.modbus_writes.spec_at(device, address))
        } else {
            None
        }
    }

    /// The pending coil write for (`device`, `address`), if any.
    pub closed spec fn spec_coil(&self, device: Seq<char>, address: u16) -> Option<PendingV> {
        if self.coil_writes.spec_has(device, address) {
            Some(self.coil_writes.spec_at(device, address))
        } else {
            None
        }
    }

    /// Number of pins with a pending GPIO write.
    pub closed spec fn spec_gpio_count(&self) -> nat {
        self.gpio_writes.spec_len()
    }

    /// Number of registers with a pending Modbus write.
    pub closed spec fn spec_modbus_count(&self) -> nat {
        self.modbus_writes.spec_len()
    }

    /// Number of coils with a pending write.
    pub closed spec fn spec_coil_count(&self) -> nat {
        self.coil_writes.spec_len()
    }

    /// Structural invariant of the three tables.
    pub closed spec fn wf(&self) -> bool {
        &&& self.gpio_writes.wf()
        &&& self.modbus_writes.wf()
        &&& self.coil_writes.wf()
    }

    /// A detector with no pending writes.
    pub fn new() -> (r: Self)
        ensures
            r.wf(),
            forall|p: u8| #[trigger] r.spec_gpio(p) is None,
            forall|d: Seq<char>, a: u16| #[trigger] r.spec_modbus(d, a) is None,
            forall|d: Seq<char>, a: u16| #[trigger] r.spec_coil(d, a) is None,
    {
        ConflictDetector {
            gpio_writes: PinTable::new(),
            modbus_writes: AddrTable::new(),
            coil_writes: AddrTable::new(),
        }
    }

    /// Forget all pending writes; called at the start of each tick.
    pub fn reset(&mut self)
        ensures
            final(self).wf(),
            forall|p: u8| #[trigger] final(self).spec_gpio(p) is None,
            forall|d: Seq<char>, a: u16| #[trigger] final(self).spec_modbus(d, a) is None,
            forall|d: Seq<char>, a: u16| #[trigger] final(self).spec_coil(d, a) is None,
    {
        self.gpio_writes.clear();
        self.modbus_writes.clear();
        self.coil_writes.clear();
    }

    /// Arbitrate and register a GPIO write of `value` to `pin` by
    /// `script_id`.
    ///
    /// The verdict is [`spec_verdict`] of the prior pending write; except on
    /// a duplicate (where nothing changes) the pending write becomes this
    /// one, so the last non-duplicate writer holds the target.
    pub fn check_gpio_write(&mut self, script_id: &str, pin: u8, value: bool) -> (r: ConflictResult)
        requires
            old(self).wf(),
        ensures
            final(self).wf(),
            r.spec_kind() == spec_verdict(
                old(self).spec_gpio(pin),
                script_id@,
                WriteValue::Bool(value),
            ),
            final(self).spec_gpio(pin) == if r.spec_kind() == ConflictKind::KindDuplicate {
                old(self).spec_gpio(pin)
            } else {
                Some(PendingV { script: script_id@, value: WriteValue::Bool(value) })
            },
            forall|p: u8|
                p != pin ==> #[trigger] final(self).spec_gpio(p) == old(self).spec_gpio(p),
            forall|d: Seq<char>, a: u16|
                #[trigger] final(self).spec_modbus(d, a) == old(self).spec_modbus(d, a),
            forall|d: Seq<char>, a: u16|
                #[trigger] final(self).spec_coil(d, a) == old(self).spec_coil(d, a),
            r matches ConflictResult::Conflict { message } ==> (old(self).spec_gpio(pin) matches
                Some(p) && message@ == spec_gpio_conflict_msg(
                pin,
                script_id@,
                value,
                p.script,
                p.value == WriteValue::Bool(true),
            )),
    {
        let new_write = PendingWrite {
            script_id: script_id.to_owned(),
            value: WriteValue::Bool(value),
        };
        let found = self.gpio_writes.find(pin);
        match found {
            Some(i) => {
                let same_script = str_eq(
                    self.gpio_writes.entries[i].write.script_id.as_str(),
                    script_id,
                );
                let old_value = match self.gpio_writes.entries[i].write.value {
                    WriteValue::Bool(b) => b,
                    WriteValue::U16(_) => false,
                };
                let old_is_bool = matches!(
                    self.gpio_writes.entries[i].write.value, WriteValue::Bool(_));
                if same_script {
                    self.gpio_writes.set(pin, new_write);
                    ConflictResult::NoConflict
                } else if old_is_bool && old_value == value {
                    ConflictResult::Duplicate
                } else {
                    let old_script = self.gpio_writes.entries[i].write.script_id.clone();
                    self.gpio_writes.set(pin, new_write);
                    let mut m: Vec<char> = Vec::new();
                    push_str_chars(&mut m, "GPIO CONFLICT: Pin ");
                    push_dec(&mut m, pin as u64);
                    push_str_chars(&mut m, " - Script '");
                    push_str_chars(&mut m, script_id);
                    push_str_chars(&mut m, "' wants ");
                    push_str_chars(&mut m, if value { "HIGH" } else { "LOW" });
                    push_str_chars(&mut m, ", but '");
                    push_str_chars(&mut m, old_script.as_str());
                    push_str_chars(&mut m, "' already set ");
                    push_str_chars(&mut m, if old_value { "HIGH" } else { "LOW" });
                    let message = chars_to_string(&m);
                    ConflictResult::Conflict { message }
                }
            },
            None => {
                self.gpio_writes.set(pin, new_write);
                ConflictResult::NoConflict
            },
        }
    }

    /// Arbitrate and register a Modbus register write; same policy as
    /// [`Self::check_gpio_write`], keyed by (`device`, `address`).
    pub fn check_modbus_write(
        &mut self,
        script_id: &str,
        device: &str,
        address: u16,
        value: u16,
    ) -> (r: ConflictResult)
        requires
            old(self).wf(),
        ensures
            final(self).wf(),
            r.spec_kind() == spec_verdict(
                old(self).spec_modbus(device@, address),
                script_id@,
                WriteValue::U16(value),
            ),
            final(self).spec_modbus(device@, address) == if r.spec_kind()
                == ConflictKind::KindDuplicate {
                old(self).spec_modbus(device@, address)
            } else {
                Some(PendingV { script: script_id@, value: WriteValue::U16(value) })
            },
            forall|d: Seq<char>, a: u16|
                !(d == device@ && a == address) ==> #[trigger] final(self).spec_modbus(d, a)
                    == old(self).spec_modbus(d, a),
            forall|p: u8| #[trigger] final(self).spec_gpio(p) == old(self).spec_gpio(p),
            forall|d: Seq<char>, a: u16|
                #[trigger] final(self).spec_coil(d, a) == old(self).spec_coil(d, a),
            r matches ConflictResult::Conflict { message } ==> (old(self).spec_modbus(
                device@,
                address,
            ) matches Some(p) && message@ == spec_modbus_conflict_msg(
                device@,
                address,
                script_id@,
                value,
                p.script,
                match p.value {
                    WriteValue::U16(x) => x,
                    WriteValue::Bool(_) => 0,
                },
            )),
    {
        let new_write = PendingWrite {
            script_id: script_id.to_owned(),
            value: WriteValue::U16(value),
        };
        let found = self.modbus_writes.find(device, address);
        match found {
            Some(i) => {
                let same_script = str_eq(
                    self.modbus_writes.entries[i].write.script_id.as_str(),
                    script_id,
                );
                let old_value = match self.modbus_writes.entries[i].write.value {
                    WriteValue::U16(v) => v,
                    WriteValue::Bool(_) => 0,
                };
                let old_is_u16 = matches!(
                    self.modbus_writes.entries[i].write.value, WriteValue::U16(_));
                if same_script {
                    self.modbus_writes.set(device, address, new_write);
                    ConflictResult::NoConflict
                } else if old_is_u16 && old_value == value {
                    ConflictResult::Duplicate
                } else {
                    let old_script = self.modbus_writes.entries[i].write.script_id.clone();
                    self.modbus_writes.set(device, address, new_write);
                    let mut m: Vec<char> = Vec::new();
                    push_str_chars(&mut m, "MODBUS CONFLICT: ");
                    push_str_chars(&mut m, device);
                    push_str_chars(&mut m, ":");
                    push_dec(&mut m, address as u64);
                    push_str_chars(&mut m, " - Script '");
                    push_str_chars(&mut m, script_id);
                    push_str_chars(&mut m, "' wants ");
                    push_dec(&mut m, value as u64);
                    push_str_chars(&mut m, ", but '");
                    push_str_chars(&mut m, old_script.as_str());
                    push_str_chars(&mut m, "' already set ");
                    push_dec(&mut m, old_value as u64);
                    let message = chars_to_string(&m);
                    ConflictResult::Conflict { message }
                }
            },
            None => {
                self.modbus_writes.set(device, address, new_write);
                ConflictResult::NoConflict
            },
        }
    }

    /// Arbitrate and register a Modbus coil write; same policy as
    /// [`Self::check_gpio_write`], keyed by (`device`, `address`).
    pub fn check_coil_write(
        &mut self,
        script_id: &str,
        device: &str,
        address: u16,
        value: bool,
    ) -> (r: ConflictResult)
        requires
            old(self).wf(),
        ensures
            final(self).wf(),
            r.spec_kind() == spec_verdict(
                old(self).spec_coil(device@, address),
                script_id@,
                WriteValue::Bool(value),
            ),
            final(self).spec_coil(device@, address) == if r.spec_kind()
                == ConflictKind::KindDuplicate {
                old(self).spec_coil(device@, address)
            } else {
                Some(PendingV { script: script_id@, value: WriteValue::Bool(value) })
            },
            forall|d: Seq<char>, a: u16|
                !(d == device@ && a == address) ==> #[trigger] final(self).spec_coil(d, a) == old(
                    self,
                ).spec_coil(d, a),
            forall|p: u8| #[trigger] final(self).spec_gpio(p) == old(self).spec_gpio(p),
            forall|d: Seq<char>, a: u16|
                #[trigger] final(self).spec_modbus(d, a) == old(self).spec_modbus(d, a),
            r matches ConflictResult::Conflict { message } ==> (old(self).spec_coil(
                device@,
                address,
            ) matches Some(p) && message@ == spec_coil_conflict_msg(
                device@,
                address,
                script_id@,
                value,
                p.script,
                p.value == WriteValue::Bool(true),
            )),
    {
        let new_write = PendingWrite {
            script_id: script_id.to_owned(),
            value: WriteValue::Bool(value),
        };
        let found = self.coil_writes.find(device, address);
        match found {
            Some(i) => {
                let same_script = str_eq(
                    self.coil_writes.entries[i].write.script_id.as_str(),
                    script_id,
                );
                let old_value = match self.coil_writes.entries[i].write.value {
                    WriteValue::Bool(b) => b,
                    WriteValue::U16(_) => false,
                };
                let old_is_bool = matches!(
                    self.coil_writes.entries[i].write.value, WriteValue::Bool(_));
                if same_script {
                    self.coil_writes.set(device, address, new_write);
                    ConflictResult::NoConflict
                } else if old_is_bool && old_value == value {
                    ConflictResult::Duplicate
                } else {
                    let old_script = self.coil_writes.entries[i].write.script_id.clone();
                    self.coil_writes.set(device, address, new_write);
                    let mut m: Vec<char> = Vec::new();
                    push_str_chars(&mut m, "COIL CONFLICT: ");
                    push_str_chars(&mut m, device);
                    push_str_chars(&mut m, ":");
                    push_dec(&mut m, address as u64);
                    push_str_chars(&mut m, " - Script '");
                    push_str_chars(&mut m, script_id);
                    push_str_chars(&mut m, "' wants ");
                    push_str_chars(&mut m, if value { "true" } else { "false" });
                    push_str_chars(&mut m, ", but '");
                    push_str_chars(&mut m, old_script.as_str());
                    push_str_chars(&mut m, "' already set ");
                    push_str_chars(&mut m, if old_value { "true" } else { "false" });
                    let message = chars_to_string(&m);
                    ConflictResult::Conflict { message }
                }
            },
            None => {
                self.coil_writes.set(device, address, new_write);
                ConflictResult::NoConflict
            },
        }
    }

    /// One-line summary of how many writes are pending, for diagnostics.
    pub fn get_pending_summary(&self) -> (r: String)
        ensures
            r@ == "Pending writes: "@ + spec_dec(self.spec_gpio_count()) + " GPIO, "@
                + spec_dec(self.spec_modbus_count()) + " Modbus registers, "@ + spec_dec(
                self.spec_coil_count(),
            ) + " coils"@,
    {
        let mut m: Vec<char> = Vec::new();
        push_str_chars(&mut m, "Pending writes: ");
        push_dec(&mut m, self.gpio_writes.len() as u64);
        push_str_chars(&mut m, " GPIO, ");
        push_dec(&mut m, self.modbus_writes.len() as u64);
        push_str_chars(&mut m, " Modbus registers, ");
        push_dec(&mut m, self.coil_writes.len() as u64);
        push_str_chars(&mut m, " coils");
        chars_to_string(&m)
    }
}

/// Determinism of arbitration within one tick: after any two attempts on the
/// same GPIO pin, the pending value is the one of the last attempt whose
/// verdict was not `Duplicate`; a duplicate never changes the pending write.
/// The same relation holds per step for every later attempt, so the value
/// finally handed to the hardware is the last non-duplicate write.
pub proof fn lemma_conflict_last_write_wins(
    d0: ConflictDetector,
    d1: ConflictDetector,
    d2: ConflictDetector,
    pin: u8,
    s1: Seq<char>,
    v1: WriteValue,
    k1: ConflictKind,
    s2: Seq<char>,
    v2: WriteValue,
    k2: ConflictKind,
)
    requires
        d0.spec_gpio(pin) is None,
        k1 == spec_verdict(d0.spec_gpio(pin), s1, v1),
        d1.spec_gpio(pin) == if k1 == ConflictKind::KindDuplicate {
            d0.spec_gpio(pin)
        } else {
            Some(PendingV { script: s1, value: v1 })
        },
        k2 == spec_verdict(d1.spec_gpio(pin), s2, v2),
        d2.spec_gpio(pin) == if k2 == ConflictKind::KindDuplicate {
            d1.spec_gpio(pin)
        } else {
            Some(PendingV { script: s2, value: v2 })
        },
    ensures
        k1 == ConflictKind::KindNoConflict,
        d2.spec_gpio(pin) == Some(
            PendingV {
                script: if k2 == ConflictKind::KindDuplicate {
                    s1
                } else {
                    s2
                },
                value: if k2 == ConflictKind::KindDuplicate {
                    v1
                } else {
                    v2
                },
            },
        ),
        k2 == ConflictKind::KindDuplicate ==> v2 == v1,
{
}

} // verus!
