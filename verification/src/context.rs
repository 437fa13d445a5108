//! The script context: the live snapshot scripts evaluate against.
//!
//! Three namespaces of dynamic values (`sensor.*`, `gpio.*`, `var.*`), the
//! wall-clock fields `time.{hour,minute,weekday,epoch_ms}`, and string
//! interpolation of `{path}` placeholders. The context never reads a clock:
//! `refresh_time` is handed the current time and derives the fields from it.

use vstd::prelude::*;

use crate::table::ValueTable;
use crate::text::{chars_to_string, dec_chars, starts_with_chars, str_chars, tail_chars};
use crate::value::{push_value_chars, spec_value_chars, Value, ValueV};

verus! {

/// Live sensor/GPIO/variable snapshot plus the time-of-day fields.
pub struct ScriptContext {
    sensors: ValueTable,
    gpio: ValueTable,
    variables: ValueTable,
    time_hour: u64,
    time_minute: u64,
    time_weekday: u64,
    time_epoch_ms: u64,
}

impl ScriptContext {
    /// Structural invariant: the three namespaces are well-formed tables,
    /// and the derived time fields are in range.
    pub closed spec fn wf(&self) -> bool {
        &&& self.sensors.wf()
        &&& self.gpio.wf()
        &&& self.variables.wf()
        &&& self.time_hour < 24
        &&& self.time_minute < 60
        &&& self.time_weekday < 7
        &&& self.time_epoch_ms <= 9_000_000_000_000_000
    }

    /// The sensor reading stored under `name`.
    pub closed spec fn spec_sensor(&self, name: Seq<char>) -> Option<ValueV> {
        self.sensors.spec_get(name)
    }

    /// The GPIO level stored under the decimal rendering of a pin number.
    pub closed spec fn spec_gpio(&self, key: Seq<char>) -> Option<ValueV> {
        self.gpio.spec_get(key)
    }

    /// The user variable stored under `name`.
    pub closed spec fn spec_var(&self, name: Seq<char>) -> Option<ValueV> {
        self.variables.spec_get(name)
    }

    /// The time fields, as (hour, minute, weekday, epoch milliseconds).
    pub closed spec fn spec_time(&self) -> (nat, nat, nat, nat) {
        (
            self.time_hour as nat,
            self.time_minute as nat,
            self.time_weekday as nat,
            self.time_epoch_ms as nat,
        )
    }

    /// Resolution of a dotted path against the context: `sensor.NAME`,
    /// `gpio.PIN`, `var.NAME` look up their namespace; the four `time.*`
    /// fields yield numbers; anything else is missing.
    pub open spec fn spec_get_value(&self, path: Seq<char>) -> Option<ValueV> {
        if path.len() >= 7 && path.subrange(0, 7) == "sensor."@ {
            self.spec_sensor(path.subrange(7, path.len() as int))
        } else if path.len() >= 5 && path.subrange(0, 5) == "gpio."@ {
            self.spec_gpio(path.subrange(5, path.len() as int))
        } else if path.len() >= 4 && path.subrange(0, 4) == "var."@ {
            self.spec_var(path.subrange(4, path.len() as int))
        } else if path == "time.hour"@ {
            Some(ValueV::Num(self.spec_time().0 * 1000 as int))
        } else if path == "time.minute"@ {
            Some(ValueV::Num(self.spec_time().1 * 1000 as int))
        } else if path == "time.weekday"@ {
            Some(ValueV::Num(self.spec_time().2 * 1000 as int))
        } else if path == "time.epoch_ms"@ {
            Some(ValueV::Num(self.spec_time().3 * 1000 as int))
        } else {
            None
        }
    }

    /// A context with empty namespaces and the time fields at zero.
    pub fn new() -> (r: Self)
        ensures
            r.wf(),
            forall|k: Seq<char>| #[trigger] r.spec_sensor(k) is None,
            forall|k: Seq<char>| #[trigger] r.spec_gpio(k) is None,
            forall|k: Seq<char>| #[trigger] r.spec_var(k) is None,
            r.spec_time() == (0nat, 0nat, 0nat, 0nat),
    {
        ScriptContext {
            sensors: ValueTable::new(),
            gpio: ValueTable::new(),
            variables: ValueTable::new(),
            time_hour: 0,
            time_minute: 0,
            time_weekday: 0,
            time_epoch_ms: 0,
        }
    }

    /// Store a sensor reading.
    pub fn set_sensor(&mut self, name: &str, value: Value)
        requires
            old(self).wf(),
        ensures
            final(self).wf(),
            final(self).spec_sensor(name@) == Some(value@),
            forall|k: Seq<char>|
                k != name@ ==> #[trigger] final(self).spec_sensor(k) == old(self).spec_sensor(k),
            forall|k: Seq<char>| #[trigger] final(self).spec_gpio(k) == old(self).spec_gpio(k),
            forall|k: Seq<char>| #[trigger] final(self).spec_var(k) == old(self).spec_var(k),
            final(self).spec_time() == old(self).spec_time(),
    {
        self.sensors.set(name, value);
    }

    /// The sensor reading under `name`, copied out.
    pub fn get_sensor(&self, name: &str) -> (r: Option<Value>)
        requires
            self.wf(),
        ensures
            match r {
                Some(v) => self.spec_sensor(name@) == Some(v@),
                None => self.spec_sensor(name@) is None,
            },
    {
        let nc = str_chars(name);
        self.sensors.get(&nc)
    }

    /// Store a GPIO level for `pin`, keyed by the pin's decimal rendering so
    /// that the path `gpio.PIN` finds it.
    pub fn set_gpio(&mut self, pin: u8, state: bool)
        requires
            old(self).wf(),
        ensures
            final(self).wf(),
            final(self).spec_gpio(crate::text::spec_dec(pin as nat)) == Some(
                ValueV::Bool(state),
            ),
            forall|k: Seq<char>|
                k != crate::text::spec_dec(pin as nat) ==> #[trigger] final(self).spec_gpio(k)
                    == old(self).spec_gpio(k),
            forall|k: Seq<char>|
                #[trigger] final(self).spec_sensor(k) == old(self).spec_sensor(k),
            forall|k: Seq<char>| #[trigger] final(self).spec_var(k) == old(self).spec_var(k),
            final(self).spec_time() == old(self).spec_time(),
    {
        let key_chars = dec_chars(pin as u64);
        let key = chars_to_string(&key_chars);
        self.gpio.set(key.as_str(), Value::Bool(state));
    }

    /// Store a user variable.
    pub fn set_variable(&mut self, name: &str, value: Value)
        requires
            old(self).wf(),
        ensures
            final(self).wf(),
            final(self).spec_var(name@) == Some(value@),
            forall|k: Seq<char>|
                k != name@ ==> #[trigger] final(self).spec_var(k) == old(self).spec_var(k),
            forall|k: Seq<char>|
                #[trigger] final(self).spec_sensor(k) == old(self).spec_sensor(k),
            forall|k: Seq<char>| #[trigger] final(self).spec_gpio(k) == old(self).spec_gpio(k),
            final(self).spec_time() == old(self).spec_time(),
    {
        self.variables.set(name, value);
    }

    /// Derive the `time.*` fields from the epoch time `now_ms` (UTC): hour
    /// and minute of day, and the weekday with 0 = Sunday.
    pub fn refresh_time(&mut self, now_ms: u64)
        requires
            old(self).wf(),
            now_ms <= 9_000_000_000_000_000,
        ensures
            final(self).wf(),
            final(self).spec_time() == (
                ((now_ms as nat / 3_600_000) % 24),
                ((now_ms as nat / 60_000) % 60),
                ((now_ms as nat / 86_400_000 + 4) % 7),
                now_ms as nat,
            ),
            forall|k: Seq<char>|
                #[trigger] final(self).spec_sensor(k) == old(self).spec_sensor(k),
            forall|k: Seq<char>| #[trigger] final(self).spec_gpio(k) == old(self).spec_gpio(k),
            forall|k: Seq<char>| #[trigger] final(self).spec_var(k) == old(self).spec_var(k),
    {
        self.time_hour = (now_ms / 3_600_000) % 24;
        self.time_minute = (now_ms / 60_000) % 60;
        self.time_weekday = (now_ms / 86_400_000 + 4) % 7;
        self.time_epoch_ms = now_ms;
    }

    /// The (hour, minute, weekday) fields.
    pub fn time_fields(&self) -> (r: (u64, u64, u64))
        ensures
            r.0 as nat == self.spec_time().0,
            r.1 as nat == self.spec_time().1,
            r.2 as nat == self.spec_time().2,
    {
        (self.time_hour, self.time_minute, self.time_weekday)
    }

    /// The epoch time of the last refresh, in milliseconds.
    pub fn epoch_ms(&self) -> (r: u64)
        ensures
            r as nat == self.spec_time().3,
    {
        self.time_epoch_ms
    }

    /// Resolve a dotted path given as characters.
    pub fn get_value_chars(&self, path: &Vec<char>) -> (r: Option<Value>)
        requires
            self.wf(),
        ensures
            match r {
                Some(v) => self.spec_get_value(path@) == Some(v@),
                None => self.spec_get_value(path@) is None,
            },
    {
        proof {
            reveal_strlit("sensor.");
            reveal_strlit("gpio.");
            reveal_strlit("var.");
        }
        if starts_with_chars(path, "sensor.") {
            let suffix = tail_chars(path, 7);
            self.sensors.get(&suffix)
        } else if starts_with_chars(path, "gpio.") {
            let suffix = tail_chars(path, 5);
            self.gpio.get(&suffix)
        } else if starts_with_chars(path, "var.") {
            let suffix = tail_chars(path, 4);
            self.variables.get(&suffix)
        } else {
            let hour_key = str_chars("time.hour");
            let minute_key = str_chars("time.minute");
            let weekday_key = str_chars("time.weekday");
            let epoch_key = str_chars("time.epoch_ms");
            if crate::text::chars_eq(path, &hour_key) {
                proof {
                    self.lemma_time_path_distinct(path@);
                }
                Some(Value::Num((self.time_hour * 1000) as i64))
            } else if crate::text::chars_eq(path, &minute_key) {
                proof {
                    self.lemma_time_path_distinct(path@);
                }
                Some(Value::Num((self.time_minute * 1000) as i64))
            } else if crate::text::chars_eq(path, &weekday_key) {
                proof {
                    self.lemma_time_path_distinct(path@);
                }
                Some(Value::Num((self.time_weekday * 1000) as i64))
            } else if crate::text::chars_eq(path, &epoch_key) {
                proof {
                    self.lemma_time_path_distinct(path@);
                }
                Some(Value::Num((self.time_epoch_ms * 1000) as i64))
            } else {
                None
            }
        }
    }

    /// The four `time.*` paths do not carry the namespace prefixes, so the
    /// earlier branches of path resolution cannot have applied to them.
    proof fn lemma_time_path_distinct(&self, path: Seq<char>)
        requires
            path == "time.hour"@ || path == "time.minute"@ || path == "time.weekday"@ || path
                == "time.epoch_ms"@,
        ensures
            !(path.len() >= 7 && path.subrange(0, 7) == "sensor."@),
            !(path.len() >= 5 && path.subrange(0, 5) == "gpio."@),
            !(path.len() >= 4 && path.subrange(0, 4) == "var."@),
    {
        reveal_strlit("time.hour");
        reveal_strlit("time.minute");
        reveal_strlit("time.weekday");
        reveal_strlit("time.epoch_ms");
        reveal_strlit("sensor.");
        reveal_strlit("gpio.");
        reveal_strlit("var.");
        assert(path[0] == 't');
        if path.len() >= 4 && path.subrange(0, 4) == "var."@ {
            assert(path.subrange(0, 4)[0] == path[0]);
            assert("var."@[0] == 'v');
            assert(false);
        }
        if path.len() >= 5 && path.subrange(0, 5) == "gpio."@ {
            assert(path.subrange(0, 5)[0] == path[0]);
            assert("gpio."@[0] == 'g');
            assert(false);
        }
        if path.len() >= 7 && path.subrange(0, 7) == "sensor."@ {
            assert(path.subrange(0, 7)[0] == path[0]);
            assert("sensor."@[0] == 's');
            assert(false);
        }
    }

    /// Resolve a dotted path given as a string slice.
    pub fn get_value(&self, path: &str) -> (r: Option<Value>)
        requires
            self.wf(),
        ensures
            match r {
                Some(v) => self.spec_get_value(path@) == Some(v@),
                None => self.spec_get_value(path@) is None,
            },
    {
        let pc = str_chars(path);
        self.get_value_chars(&pc)
    }
}

// ---------------------------------------------------------------------------
// Interpolation.
// ---------------------------------------------------------------------------

/// The index of the first `'}'` at or after position `k` in `t`, or
/// `t.len()` when there is none.
pub open spec fn spec_close_from(t: Seq<char>, k: int) -> int
    decreases t.len() - k,
    when 0 <= k <= t.len()
{
    if k >= t.len() {
        t.len() as int
    } else if t[k] == '}' {
        k
    } else {
        spec_close_from(t, k + 1)
    }
}

/// `spec_close_from` stays within `[k, t.len()]`, points at a `'}'` when it
/// is inside, and skips no earlier `'}'`.
pub proof fn lemma_close_from(t: Seq<char>, k: int)
    requires
        0 <= k <= t.len(),
    ensures
        k <= spec_close_from(t, k) <= t.len(),
        spec_close_from(t, k) < t.len() ==> t[spec_close_from(t, k)] == '}',
        forall|m: int| k <= m < spec_close_from(t, k) ==> t[m] != '}',
    decreases t.len() - k,
{
    if k >= t.len() {
    } else if t[k] == '}' {
    } else {
        lemma_close_from(t, k + 1);
    }
}

impl ScriptContext {
    /// The interpolation of `t` from position `i` on: plain characters are
    /// copied; a `{path}` placeholder becomes the rendering of the resolved
    /// value, stays verbatim when the path is unknown, and an unterminated
    /// `{` is copied verbatim to the end.
    pub open spec fn spec_interpolate_from(&self, t: Seq<char>, i: int) -> Seq<char>
        decreases t.len() - i,
        when 0 <= i <= t.len()
    {
        if i >= t.len() {
            Seq::<char>::empty()
        } else if t[i] == '{' {
            let j = vstd::math::max(spec_close_from(t, i + 1), i + 1);
            if j >= t.len() {
                t.subrange(i, t.len() as int)
            } else {
                (match self.spec_get_value(t.subrange(i + 1, j)) {
                    Some(v) => spec_value_chars(v),
                    None => t.subrange(i, j + 1),
                }) + self.spec_interpolate_from(t, j + 1)
            }
        } else {
            seq![t[i]] + self.spec_interpolate_from(t, i + 1)
        }
    }

    /// The interpolation of a whole template.
    pub open spec fn spec_interpolate(&self, t: Seq<char>) -> Seq<char> {
        self.spec_interpolate_from(t, 0)
    }

    /// Append the interpolation of `t` from position `i` on to `out`.
    fn interpolate_step(&self, t: &Vec<char>, i: usize, out: &mut Vec<char>)
        requires
            self.wf(),
            i <= t@.len(),
        ensures
            final(out)@ == old(out)@ + self.spec_interpolate_from(t@, i as int),
        decreases t@.len() - i,
    {
        let n = t.len();
        if i == n {
            assert(out@ =~= out@ + self.spec_interpolate_from(t@, i as int));
            return ;
        }
        let c = t[i];
        if c == '{' {
            let mut j: usize = i + 1;
            while j < n && t[j] != '}'
                invariant
                    n == t@.len(),
                    i + 1 <= j <= n,
                    spec_close_from(t@, i + 1) == spec_close_from(t@, j as int),
                decreases n - j,
            {
                j = j + 1;
            }
            proof {
                lemma_close_from(t@, i + 1);
                assert(spec_close_from(t@, j as int) == j as int || (j == n && spec_close_from(
                    t@,
                    j as int,
                ) == n));
            }
            if j == n {
                // Unterminated placeholder: copy the rest verbatim.
                let ghost pre = out@;
                let mut k: usize = i;
                while k < n
                    invariant
                        n == t@.len(),
                        i <= k <= n,
                        out@ =~= pre + t@.subrange(i as int, k as int),
                    decreases n - k,
                {
                    let ck = t[k];
                    out.push(ck);
                    k = k + 1;
                }
                assert(out@ =~= pre + t@.subrange(i as int, n as int));
            } else {
                let path = crate::text::sub_chars(t, i + 1, j);
                let resolved = self.get_value_chars(&path);
                match resolved {
                    Some(v) => {
                        push_value_chars(out, &v);
                    },
                    None => {
                        let ghost pre = out@;
                        let mut k: usize = i;
                        while k < j + 1
                            invariant
                                n == t@.len(),
                                j < n,
                                i <= k <= j + 1,
                                out@ =~= pre + t@.subrange(i as int, k as int),
                            decreases j + 1 - k,
                        {
                            let ck = t[k];
                            out.push(ck);
                            k = k + 1;
                        }
                        assert(out@ =~= pre + t@.subrange(i as int, j + 1 as int));
                    },
                }
                self.interpolate_step(t, j + 1, out);
            }
        } else {
            out.push(c);
            self.interpolate_step(t, i + 1, out);
            proof {
                assert(old(out)@ + seq![t@[i as int]] + self.spec_interpolate_from(
                    t@,
                    i + 1 as int,
                ) =~= old(out)@ + (seq![t@[i as int]] + self.spec_interpolate_from(
                    t@,
                    i + 1 as int,
                )));
            }
        }
    }

    /// Substitute every `{path}` placeholder in `template` with the value it
    /// resolves to; unknown paths stay as written.
    pub fn interpolate(&self, template: &str) -> (r: String)
        requires
            self.wf(),
        ensures
            r@ == self.spec_interpolate(template@),
    {
        let tc = str_chars(template);
        let mut out: Vec<char> = Vec::new();
        self.interpolate_step(&tc, 0, &mut out);
        chars_to_string(&out)
    }
}

} // verus!
