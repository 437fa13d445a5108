//! Trigger evaluation: when does a script fire?
//!
//! Each (script, trigger index) pair owns a small state record — the
//! startup flag, the periodic next-fire time, the threshold debounce
//! timer, the edge detector's last sample, the schedule's last-fired
//! minute. The decision for one evaluation is pinned by the spec step
//! function [`spec_trigger_step`]: `check_trigger` returns exactly its
//! firing verdict and leaves exactly its successor state behind.

use vstd::prelude::*;

use crate::context::ScriptContext;
use crate::model::{EdgeDirection, Trigger, TriggerV};
use crate::text::str_eq;
use crate::value::{compare_values, spec_compare, Value, ValueV};

verus! {

/// Per-(script, trigger) evaluation state.
#[derive(Clone, Copy, PartialEq, Eq, Structural, Debug)]
pub enum TrigState {
    /// No state to keep (MQTT triggers).
    Idle,
    /// Whether the startup trigger has fired.
    Startup { fired: bool },
    /// Next time a periodic trigger is due.
    Periodic { next_ms: u64 },
    /// When the threshold comparison first became true, if it holds.
    Threshold { since_ms: Option<u64> },
    /// The edge detector's previous sample, once one was taken.
    Edge { last: Option<bool> },
    /// The minute index (epoch / 60000) of the last schedule firing.
    Schedule { last_minute: Option<u64> },
}

/// One evaluation step of a trigger: from the stored state (if any), the
/// trigger, the context, the time and this tick's incoming MQTT topics, to
/// the firing verdict and the successor state.
pub open spec fn spec_trigger_step(
    st: Option<TrigState>,
    t: TriggerV,
    ctx: &ScriptContext,
    now_ms: nat,
    events: Seq<Seq<char>>,
) -> (bool, TrigState) {
    match t {
        TriggerV::Startup => {
            let fired_before = st == Some(TrigState::Startup { fired: true });
            (!fired_before, TrigState::Startup { fired: true })
        },
        TriggerV::Periodic { interval_ms } => {
            let next = match st {
                Some(TrigState::Periodic { next_ms }) => next_ms as nat,
                _ => now_ms,
            };
            let fire = now_ms >= next;
            let new_next: nat = if fire {
                if now_ms + interval_ms > u64::MAX as nat {
                    u64::MAX as nat
                } else {
                    (now_ms + interval_ms) as nat
                }
            } else {
                next
            };
            (fire, TrigState::Periodic { next_ms: new_next as u64 })
        },
        TriggerV::Threshold { source, operator, value, debounce_ms } => {
            let holds = match ctx.spec_get_value(source) {
                Some(v) => spec_compare(v, operator, value),
                None => false,
            };
            if !holds {
                (false, TrigState::Threshold { since_ms: None })
            } else {
                let since = match st {
                    Some(TrigState::Threshold { since_ms: Some(s) }) => s as nat,
                    _ => now_ms,
                };
                (
                    now_ms >= since + debounce_ms,
                    TrigState::Threshold { since_ms: Some(since as u64) },
                )
            }
        },
        TriggerV::Edge { source, direction } => {
            let cur = match ctx.spec_get_value(source) {
                Some(ValueV::Bool(b)) => Some(b),
                _ => None,
            };
            match cur {
                None => {
                    let keep = match st {
                        Some(TrigState::Edge { last }) => TrigState::Edge { last },
                        _ => TrigState::Edge { last: None },
                    };
                    (false, keep)
                },
                Some(c) => {
                    let prev = match st {
                        Some(TrigState::Edge { last }) => last,
                        _ => None,
                    };
                    let fire = match prev {
                        None => false,
                        Some(p) => match direction {
                            EdgeDirection::Rising => !p && c,
                            EdgeDirection::Falling => p && !c,
                            EdgeDirection::Both => p != c,
                        },
                    };
                    (fire, TrigState::Edge { last: Some(c) })
                },
            }
        },
        TriggerV::Schedule { minute, hour, weekday } => {
            let time = ctx.spec_time();
            let mask = (match minute {
                Some(m) => m as nat == time.1,
                None => true,
            }) && (match hour {
                Some(h) => h as nat == time.0,
                None => true,
            }) && (match weekday {
                Some(w) => w as nat == time.2,
                None => true,
            });
            let minute_idx = time.3 / 60_000;
            let last = match st {
                Some(TrigState::Schedule { last_minute }) => last_minute,
                _ => None,
            };
            let fire = mask && last != Some(minute_idx as u64);
            (
                fire,
                TrigState::Schedule {
                    last_minute: if fire {
                        Some(minute_idx as u64)
                    } else {
                        last
                    },
                },
            )
        },
        TriggerV::Mqtt { topic_pattern } => (
            exists|k: int|
                0 <= k < events.len() && spec_topic_match(topic_pattern, #[trigger] events[k]),
            TrigState::Idle,
        ),
    }
}

// ---------------------------------------------------------------------------
// MQTT topic matching.
// ---------------------------------------------------------------------------

/// The index of the first `'/'` at or after position `k` in `t`, or
/// `t.len()` when there is none.
pub open spec fn spec_next_slash(t: Seq<char>, k: int) -> int
    decreases t.len() - k,
    when 0 <= k <= t.len()
{
    if k >= t.len() {
        t.len() as int
    } else if t[k] == '/' {
        k
    } else {
        spec_next_slash(t, k + 1)
    }
}

/// `spec_next_slash` stays within `[k, t.len()]` and points at a `'/'` when
/// it is inside.
pub proof fn lemma_next_slash(t: Seq<char>, k: int)
    requires
        0 <= k <= t.len(),
    ensures
        k <= spec_next_slash(t, k) <= t.len(),
        spec_next_slash(t, k) < t.len() ==> t[spec_next_slash(t, k)] == '/',
        forall|m: int| k <= m < spec_next_slash(t, k) ==> t[m] != '/',
    decreases t.len() - k,
{
    if k >= t.len() {
    } else if t[k] == '/' {
    } else {
        lemma_next_slash(t, k + 1);
    }
}

/// MQTT topic matching from positions `i` in the pattern and `j` in the
/// topic; `at_level_start` records whether `i` stands at the start of a
/// pattern level. A `+` level matches exactly one topic level; a final `#`
/// level matches every remaining level; other characters match literally.
pub open spec fn spec_topic_match_from(
    p: Seq<char>,
    i: int,
    t: Seq<char>,
    j: int,
    at_level_start: bool,
) -> bool
    decreases p.len() - i + t.len() - j,
    when 0 <= i <= p.len() && 0 <= j <= t.len()
{
    if i >= p.len() {
        j >= t.len()
    } else if at_level_start && p[i] == '#' && i + 1 == p.len() {
        true
    } else if at_level_start && p[i] == '+' && (i + 1 == p.len() || p[i + 1] == '/') {
        let jn = vstd::math::max(spec_next_slash(t, j), j);
        if i + 1 == p.len() {
            jn >= t.len()
        } else if jn < t.len() {
            spec_topic_match_from(p, i + 2, t, jn + 1, true)
        } else {
            false
        }
    } else if p[i] == '/' && i + 2 == p.len() && p[i + 1] == '#' && j >= t.len() {
        // "a/#" also matches the parent level "a".
        true
    } else if j < t.len() && p[i] == t[j] && p[i] != '+' && p[i] != '#' {
        spec_topic_match_from(p, i + 1, t, j + 1, p[i] == '/')
    } else {
        false
    }
}

/// Whether topic `t` matches pattern `p` under MQTT wildcard rules.
pub open spec fn spec_topic_match(p: Seq<char>, t: Seq<char>) -> bool {
    spec_topic_match_from(p, 0, t, 0, true)
}

/// Scan for the next `'/'` in `t` from position `j` on.
fn next_slash(t: &Vec<char>, j: usize) -> (r: usize)
    requires
        j <= t@.len(),
    ensures
        r as int == spec_next_slash(t@, j as int),
        j <= r <= t@.len(),
{
    let n = t.len();
    let mut k = j;
    while k < n && t[k] != '/'
        invariant
            j <= k <= n,
            n == t@.len(),
            spec_next_slash(t@, j as int) == spec_next_slash(t@, k as int),
        decreases n - k,
    {
        k = k + 1;
    }
    k
}

/// Match `topic` against `pattern` from the given positions.
fn topic_match_step(
    pattern: &Vec<char>,
    i: usize,
    topic: &Vec<char>,
    j: usize,
    at_level_start: bool,
) -> (r: bool)
    requires
        i <= pattern@.len(),
        j <= topic@.len(),
    ensures
        r == spec_topic_match_from(pattern@, i as int, topic@, j as int, at_level_start),
    decreases pattern@.len() - i + topic@.len() - j,
{
    let pn = pattern.len();
    let tn = topic.len();
    if i == pn {
        return j == tn;
    }
    let c = pattern[i];
    if at_level_start && c == '#' && i + 1 == pn {
        return true;
    }
    if at_level_start && c == '+' && (i + 1 == pn || pattern[i + 1] == '/') {
        let jn = next_slash(topic, j);
        proof {
            lemma_next_slash(topic@, j as int);
        }
        if i + 1 == pn {
            return jn == tn;
        }
        if jn < tn {
            return topic_match_step(pattern, i + 2, topic, jn + 1, true);
        }
        return false;
    }
    if c == '/' && pn - i == 2 && pattern[i + 1] == '#' && j == tn {
        return true;
    }
    if j < tn && c == topic[j] && c != '+' && c != '#' {
        return topic_match_step(pattern, i + 1, topic, j + 1, c == '/');
    }
    false
}

/// Whether `topic` matches the MQTT `pattern` (with `+` and `#`
/// wildcards).
pub fn topic_matches(pattern: &str, topic: &str) -> (r: bool)
    ensures
        r == spec_topic_match(pattern@, topic@),
{
    let pc = crate::text::str_chars(pattern);
    let tc = crate::text::str_chars(topic);
    topic_match_step(&pc, 0, &tc, 0, true)
}

// ---------------------------------------------------------------------------
// The manager's keyed state store.
// ---------------------------------------------------------------------------

struct TrigEntry {
    script_id: String,
    index: usize,
    state: TrigState,
}

/// No two entries share a (script, index) key.
spec fn trig_keys_unique(s: Seq<TrigEntry>) -> bool {
    forall|i: int, j: int|
        0 <= i < j < s.len() ==> !(s[i].script_id@ == s[j].script_id@ && s[i].index
            == s[j].index)
}

/// Holds the per-(script, trigger index) evaluation state and makes the
/// firing decisions.
pub struct TriggerManager {
    entries: Vec<TrigEntry>,
}

impl TriggerManager {
    /// Some entry holds (`script`, `index`).
    pub closed spec fn spec_has(&self, script: Seq<char>, index: nat) -> bool {
        exists|i: int|
            0 <= i < self.entries@.len() && self.entries@[i].script_id@ == script
                && self.entries@[i].index as nat == index
    }

    /// The state stored under (`script`, `index`) (meaningful when
    /// `spec_has`).
    pub closed spec fn spec_at(&self, script: Seq<char>, index: nat) -> TrigState {
        let i = choose|i: int|
            0 <= i < self.entries@.len() && self.entries@[i].script_id@ == script
                && self.entries@[i].index as nat == index;
        self.entries@[i].state
    }

    /// The state stored under (`script`, `index`), as an `Option`.
    pub open spec fn spec_state(&self, script: Seq<char>, index: nat) -> Option<TrigState> {
        if self.spec_has(script, index) {
            Some(self.spec_at(script, index))
        } else {
            None
        }
    }

    /// Structural invariant: unique keys.
    pub closed spec fn wf(&self) -> bool {
        trig_keys_unique(self.entries@)
    }

    proof fn lemma_at_witness(&self, script: Seq<char>, index: nat, i: int)
        requires
            self.wf(),
            0 <= i < self.entries@.len(),
            self.entries@[i].script_id@ == script,
            self.entries@[i].index as nat == index,
        ensures
            self.spec_has(script, index),
            self.spec_at(script, index) == self.entries@[i].state,
    {
        assert(self.spec_has(script, index));
        let j = choose|j: int|
            0 <= j < self.entries@.len() && self.entries@[j].script_id@ == script
                && self.entries@[j].index as nat == index;
        if i < j {
            assert(!(self.entries@[i].script_id@ == self.entries@[j].script_id@
                && self.entries@[i].index == self.entries@[j].index));
        } else if j < i {
            assert(!(self.entries@[j].script_id@ == self.entries@[i].script_id@
                && self.entries@[j].index == self.entries@[i].index));
        }
    }

    /// A manager with no stored state.
    pub fn new() -> (r: Self)
        ensures
            r.wf(),
            forall|s: Seq<char>, x: nat| !r.spec_has(s, x),
    {
        TriggerManager { entries: Vec::new() }
    }

    /// The index of the entry for (`script_id`, `index`), if one exists.
    fn find(&self, script_id: &str, index: usize) -> (r: Option<usize>)
        requires
            self.wf(),
        ensures
            match r {
                Some(i) => i < self.entries@.len() && self.entries@[i as int].script_id@
                    == script_id@ && self.entries@[i as int].index == index && self.spec_has(
                    script_id@,
                    index as nat,
                ) && self.spec_at(script_id@, index as nat) == self.entries@[i as int].state,
                None => !self.spec_has(script_id@, index as nat),
            },
    {
        let n = self.entries.len();
        let mut i: usize = 0;
        while i < n
            invariant
                self.wf(),
                n == self.entries@.len(),
                i <= n,
                forall|k: int|
                    0 <= k < i ==> !(self.entries@[k].script_id@ == script_id@
                        && self.entries@[k].index == index),
            decreases n - i,
        {
            let e = &self.entries[i];
            if e.index == index && str_eq(e.script_id.as_str(), script_id) {
                proof {
                    self.lemma_at_witness(script_id@, index as nat, i as int);
                }
                return Some(i);
            }
            i = i + 1;
        }
        None
    }

    /// Store `state` under (`script_id`, `index`), replacing any previous
    /// entry.
    fn set_state(&mut self, script_id: &str, index: usize, state: TrigState)
        requires
            old(self).wf(),
        ensures
            final(self).wf(),
            final(self).spec_has(script_id@, index as nat),
            final(self).spec_at(script_id@, index as nat) == state,
            forall|s: Seq<char>, x: nat|
                !(s == script_id@ && x == index as nat) ==> #[trigger] final(self).spec_has(s, x)
                    == old(self).spec_has(s, x),
            forall|s: Seq<char>, x: nat|
                !(s == script_id@ && x == index as nat) && old(self).spec_has(s, x)
                    ==> #[trigger] final(self).spec_at(s, x) == old(self).spec_at(s, x),
    {
        let found = self.find(script_id, index);
        match found {
            Some(i) => {
                let ghost olds = self.entries@;
                self.entries[i].state = state;
                proof {
                    assert(olds[i as int].script_id@ == script_id@);
                    assert forall|k: int|
                        0 <= k < self.entries@.len() implies self.entries@[k].script_id@
                        == olds[k].script_id@ && self.entries@[k].index == olds[k].index by {}
                    self.lemma_at_witness(script_id@, index as nat, i as int);
                    assert forall|s: Seq<char>, x: nat|
                        !(s == script_id@ && x == index as nat) implies #[trigger] self.spec_has(
                        s,
                        x,
                    ) == old(self).spec_has(s, x) by {
                        if old(self).spec_has(s, x) {
                            let k = choose|k: int|
                                0 <= k < olds.len() && olds[k].script_id@ == s && olds[k].index
                                    as nat == x;
                            assert(self.entries@[k].script_id@ == s && self.entries@[k].index
                                as nat == x);
                        }
                        if self.spec_has(s, x) {
                            let k = choose|k: int|
                                0 <= k < self.entries@.len() && self.entries@[k].script_id@ == s
                                    && self.entries@[k].index as nat == x;
                            assert(olds[k].script_id@ == s && olds[k].index as nat == x);
                        }
                    }
                    assert forall|s: Seq<char>, x: nat|
                        !(s == script_id@ && x == index as nat) && old(self).spec_has(s, x)
                        implies #[trigger] self.spec_at(s, x) == old(self).spec_at(s, x) by {
                        let k = choose|k: int|
                            0 <= k < olds.len() && olds[k].script_id@ == s && olds[k].index
                                as nat == x;
                        self.lemma_at_witness(s, x, k);
                        old(self).lemma_at_witness(s, x, k);
                    }
                }
            },
            None => {
                let ghost olds = self.entries@;
                self.entries.push(TrigEntry { script_id: script_id.to_owned(), index, state });
                proof {
                    let n = olds.len() as int;
                    assert forall|x: int, y: int|
                        0 <= x < y < self.entries@.len() implies !(self.entries@[x].script_id@
                        == self.entries@[y].script_id@ && self.entries@[x].index
                        == self.entries@[y].index) by {
                        if y < n {
                        } else {
                            if self.entries@[x].script_id@ == script_id@ && self.entries@[x].index
                                == index {
                                assert(old(self).spec_has(script_id@, index as nat));
                            }
                        }
                    }
                    self.lemma_at_witness(script_id@, index as nat, n);
                    assert forall|s: Seq<char>, x: nat|
                        !(s == script_id@ && x == index as nat) implies #[trigger] self.spec_has(
                        s,
                        x,
                    ) == old(self).spec_has(s, x) by {
                        if old(self).spec_has(s, x) {
                            let k = choose|k: int|
                                0 <= k < olds.len() && olds[k].script_id@ == s && olds[k].index
                                    as nat == x;
                            assert(self.entries@[k].script_id@ == s && self.entries@[k].index
                                as nat == x);
                        }
                        if self.spec_has(s, x) {
                            let k = choose|k: int|
                                0 <= k < self.entries@.len() && self.entries@[k].script_id@ == s
                                    && self.entries@[k].index as nat == x;
                            assert(k < n);
                            assert(olds[k].script_id@ == s && olds[k].index as nat == x);
                        }
                    }
                    assert forall|s: Seq<char>, x: nat|
                        !(s == script_id@ && x == index as nat) && old(self).spec_has(s, x)
                        implies #[trigger] self.spec_at(s, x) == old(self).spec_at(s, x) by {
                        let k = choose|k: int|
                            0 <= k < olds.len() && olds[k].script_id@ == s && olds[k].index
                                as nat == x;
                        self.lemma_at_witness(s, x, k);
                        old(self).lemma_at_witness(s, x, k);
                    }
                }
            },
        }
    }

    /// Whether any of this tick's incoming topics matches `pattern`.
    fn any_topic_matches(pattern: &str, events: &Vec<String>) -> (r: bool)
        ensures
            r == exists|k: int|
                0 <= k < events@.len() && spec_topic_match(pattern@, (#[trigger] events@[k])@),
    {
        let n = events.len();
        let mut i: usize = 0;
        while i < n
            invariant
                n == events@.len(),
                i <= n,
                forall|k: int|
                    0 <= k < i ==> !spec_topic_match(pattern@, (#[trigger] events@[k])@),
            decreases n - i,
        {
            if topic_matches(pattern, events[i].as_str()) {
                proof {
                    assert(events@.map_values(|e: String| e@)[i as int] == events@[i as int]@);
                }
                return true;
            }
            i = i + 1;
        }
        proof {
            let m = events@.map_values(|e: String| e@);
            if exists|k: int| 0 <= k < m.len() && spec_topic_match(pattern@, m[k]) {
                let k = choose|k: int| 0 <= k < m.len() && spec_topic_match(pattern@, m[k]);
                assert(events@[k]@ == m[k]);
            }
        }
        false
    }

    /// Evaluate one trigger of one script at time `now_ms` against the
    /// context and this tick's incoming MQTT topics. Returns the firing
    /// verdict of [`spec_trigger_step`] and stores its successor state.
    pub fn check_trigger(
        &mut self,
        script_id: &str,
        index: usize,
        trigger: &Trigger,
        ctx: &ScriptContext,
        now_ms: u64,
        events: &Vec<String>,
    ) -> (fire: bool)
        requires
            old(self).wf(),
            ctx.wf(),
        ensures
            final(self).wf(),
            ({
                let step = spec_trigger_step(
                    old(self).spec_state(script_id@, index as nat),
                    trigger@,
                    ctx,
                    now_ms as nat,
                    events@.map_values(|e: String| e@),
                );
                fire == step.0 && final(self).spec_state(script_id@, index as nat) == Some(step.1)
            }),
            forall|s: Seq<char>, x: nat|
                !(s == script_id@ && x == index as nat) ==> #[trigger] final(self).spec_has(s, x)
                    == old(self).spec_has(s, x),
            forall|s: Seq<char>, x: nat|
                !(s == script_id@ && x == index as nat) && old(self).spec_has(s, x)
                    ==> #[trigger] final(self).spec_at(s, x) == old(self).spec_at(s, x),
    {
        let st: Option<TrigState> = match self.find(script_id, index) {
            Some(i) => Some(self.entries[i].state),
            None => None,
        };
        let (fire, new_state): (bool, TrigState) = match trigger {
            Trigger::Startup => {
                let fired_before = match st {
                    Some(TrigState::Startup { fired }) => fired,
                    _ => false,
                };
                (!fired_before, TrigState::Startup { fired: true })
            },
            Trigger::Periodic { interval_ms } => {
                let next = match st {
                    Some(TrigState::Periodic { next_ms }) => next_ms,
                    _ => now_ms,
                };
                let fire = now_ms >= next;
                let new_next = if fire {
                    if now_ms > u64::MAX - *interval_ms {
                        u64::MAX
                    } else {
                        now_ms + *interval_ms
                    }
                } else {
                    next
                };
                (fire, TrigState::Periodic { next_ms: new_next })
            },
            Trigger::Threshold { source, operator, value, debounce_ms } => {
                let resolved = ctx.get_value(source.as_str());
                let holds = match resolved {
                    Some(v) => compare_values(&v, operator, value),
                    None => false,
                };
                if !holds {
                    (false, TrigState::Threshold { since_ms: None })
                } else {
                    let since = match st {
                        Some(TrigState::Threshold { since_ms: Some(s) }) => s,
                        _ => now_ms,
                    };
                    let fire = now_ms >= since && now_ms - since >= *debounce_ms;
                    proof {
                        assert(fire == (now_ms as nat >= since as nat + *debounce_ms as nat));
                    }
                    (fire, TrigState::Threshold { since_ms: Some(since) })
                }
            },
            Trigger::Edge { source, direction } => {
                let resolved = ctx.get_value(source.as_str());
                let cur: Option<bool> = match resolved {
                    Some(Value::Bool(b)) => Some(b),
                    _ => None,
                };
                match cur {
                    None => {
                        let keep = match st {
                            Some(TrigState::Edge { last }) => TrigState::Edge { last },
                            _ => TrigState::Edge { last: None },
                        };
                        (false, keep)
                    },
                    Some(c) => {
                        let prev: Option<bool> = match st {
                            Some(TrigState::Edge { last }) => last,
                            _ => None,
                        };
                        let fire = match prev {
                            None => false,
                            Some(p) => match direction {
                                EdgeDirection::Rising => !p && c,
                                EdgeDirection::Falling => p && !c,
                                EdgeDirection::Both => p != c,
                            },
                        };
                        (fire, TrigState::Edge { last: Some(c) })
                    },
                }
            },
            Trigger::Schedule { minute, hour, weekday } => {
                let (h, mi, wd) = ctx.time_fields();
                let mask = (match minute {
                    Some(m) => *m as u64 == mi,
                    None => true,
                }) && (match hour {
                    Some(x) => *x as u64 == h,
                    None => true,
                }) && (match weekday {
                    Some(w) => *w as u64 == wd,
                    None => true,
                });
                let minute_idx = ctx.epoch_ms() / 60_000;
                let last: Option<u64> = match st {
                    Some(TrigState::Schedule { last_minute }) => last_minute,
                    _ => None,
                };
                let fire = mask && last != Some(minute_idx);
                (
                    fire,
                    TrigState::Schedule {
                        last_minute: if fire {
                            Some(minute_idx)
                        } else {
                            last
                        },
                    },
                )
            },
            Trigger::Mqtt { topic_pattern } => {
                let matched = Self::any_topic_matches(topic_pattern.as_str(), events);
                proof {
                    let m = events@.map_values(|e: String| e@);
                    if exists|k: int|
                        0 <= k < events@.len() && spec_topic_match(
                            topic_pattern@,
                            (#[trigger] events@[k])@,
                        ) {
                        let k = choose|k: int|
                            0 <= k < events@.len() && spec_topic_match(
                                topic_pattern@,
                                (#[trigger] events@[k])@,
                            );
                        assert(m[k] == events@[k]@);
                        assert(spec_topic_match(topic_pattern@, m[k]));
                    }
                    if exists|k: int|
                        0 <= k < m.len() && spec_topic_match(topic_pattern@, #[trigger] m[k]) {
                        let k = choose|k: int|
                            0 <= k < m.len() && spec_topic_match(topic_pattern@, #[trigger] m[k]);
                        assert(events@[k]@ == m[k]);
                    }
                }
                (matched, TrigState::Idle)
            },
        };
        self.set_state(script_id, index, new_state);
        fire
    }

    /// Forget all stored state of `script_id` (startup flag included), so
    /// that a redeployed or re-enabled script starts fresh.
    pub fn reset_script(&mut self, script_id: &str)
        requires
            old(self).wf(),
        ensures
            final(self).wf(),
            forall|x: nat| !final(self).spec_has(script_id@, x),
            forall|s: Seq<char>, x: nat|
                s != script_id@ ==> #[trigger] final(self).spec_has(s, x) == old(self).spec_has(
                    s,
                    x,
                ),
            forall|s: Seq<char>, x: nat|
                s != script_id@ && old(self).spec_has(s, x) ==> #[trigger] final(self).spec_at(
                    s,
                    x,
                ) == old(self).spec_at(s, x),
    {
        loop
            invariant
                self.wf(),
                forall|s: Seq<char>, x: nat|
                    s != script_id@ ==> #[trigger] self.spec_has(s, x) == old(self).spec_has(
                        s,
                        x,
                    ),
                forall|s: Seq<char>, x: nat|
                    s != script_id@ && old(self).spec_has(s, x) ==> #[trigger] self.spec_at(s, x)
                        == old(self).spec_at(s, x),
            decreases self.entries@.len(),
        {
            let found = self.find_any(script_id);
            match found {
                Some(i) => {
                    let ghost prevm = *self;
                    self.entries.remove(i);
                    proof {
                        self.lemma_after_remove(prevm.entries@, i as int);
                        let olds = prevm.entries@;
                        assert forall|s: Seq<char>, x: nat|
                            s != script_id@ implies #[trigger] self.spec_has(s, x)
                            == prevm.spec_has(s, x) by {
                            if prevm.spec_has(s, x) {
                                let k = choose|k: int|
                                    0 <= k < olds.len() && olds[k].script_id@ == s
                                        && olds[k].index as nat == x;
                            }
                        }
                        assert forall|s: Seq<char>, x: nat|
                            s != script_id@ && prevm.spec_has(s, x) implies #[trigger] self
                            .spec_at(s, x) == prevm.spec_at(s, x) by {
                            let k = choose|k: int|
                                0 <= k < olds.len() && olds[k].script_id@ == s && olds[k].index
                                    as nat == x;
                            prevm.lemma_at_witness(s, x, k);
                        }
                    }
                },
                None => {
                    proof {
                        assert forall|x: nat| !self.spec_has(script_id@, x) by {
                            if self.spec_has(script_id@, x) {
                                let k = choose|k: int|
                                    0 <= k < self.entries@.len() && self.entries@[k].script_id@
                                        == script_id@ && self.entries@[k].index as nat == x;
                            }
                        }
                    }
                    return ;
                },
            }
        }
    }

    /// The index of some entry of `script_id`, if one exists.
    fn find_any(&self, script_id: &str) -> (r: Option<usize>)
        ensures
            match r {
                Some(i) => i < self.entries@.len() && self.entries@[i as int].script_id@
                    == script_id@,
                None => forall|k: int|
                    0 <= k < self.entries@.len() ==> (#[trigger] self.entries@[k].script_id@)
                        != script_id@,
            },
    {
        let n = self.entries.len();
        let mut i: usize = 0;
        while i < n
            invariant
                n == self.entries@.len(),
                i <= n,
                forall|k: int|
                    0 <= k < i ==> (#[trigger] self.entries@[k].script_id@) != script_id@,
            decreases n - i,
        {
            if str_eq(self.entries[i].script_id.as_str(), script_id) {
                return Some(i);
            }
            i = i + 1;
        }
        None
    }

    /// After removing the entry at index `i`, every key but that entry's
    /// resolves as before.
    proof fn lemma_after_remove(&self, olds: Seq<TrigEntry>, i: int)
        requires
            trig_keys_unique(olds),
            0 <= i < olds.len(),
            self.entries@ == olds.remove(i),
        ensures
            self.wf(),
            self.entries@.len() == olds.len() - 1,
            forall|s: Seq<char>, x: nat|
                !(s == olds[i].script_id@ && x == olds[i].index as nat)
                    ==> #[trigger] self.spec_has(s, x) == exists|k: int|
                    0 <= k < olds.len() && olds[k].script_id@ == s && olds[k].index as nat == x,
            forall|s: Seq<char>, x: nat|
                s == olds[i].script_id@ && x != olds[i].index as nat ==> (
                #[trigger] self.spec_has(s, x) == exists|k: int|
                    0 <= k < olds.len() && olds[k].script_id@ == s && olds[k].index as nat == x),
            forall|s: Seq<char>, x: nat, k: int|
                #![trigger olds[k].script_id@, self.spec_at(s, x)]
                !(s == olds[i].script_id@ && x == olds[i].index as nat) && 0 <= k < olds.len()
                    && olds[k].script_id@ == s && olds[k].index as nat == x ==> self.spec_at(s, x)
                    == olds[k].state,
            forall|k: int|
                #![trigger self.entries@[k]]
                0 <= k < self.entries@.len() ==> (self.entries@[k] == if k < i {
                    olds[k]
                } else {
                    olds[k + 1]
                }),
    {
        assert forall|x: int, y: int|
            0 <= x < y < self.entries@.len() implies !(self.entries@[x].script_id@
            == self.entries@[y].script_id@ && self.entries@[x].index
            == self.entries@[y].index) by {
            let ox = if x < i {
                x
            } else {
                x + 1
            };
            let oy = if y < i {
                y
            } else {
                y + 1
            };
            assert(self.entries@[x] == olds[ox]);
            assert(self.entries@[y] == olds[oy]);
        }
        assert forall|s: Seq<char>, x: nat|
            !(s == olds[i].script_id@ && x == olds[i].index as nat) implies #[trigger] self
            .spec_has(s, x) == exists|k: int|
            0 <= k < olds.len() && olds[k].script_id@ == s && olds[k].index as nat == x by {
            if exists|k: int|
                0 <= k < olds.len() && olds[k].script_id@ == s && olds[k].index as nat == x {
                let k = choose|k: int|
                    0 <= k < olds.len() && olds[k].script_id@ == s && olds[k].index as nat == x;
                assert(k != i);
                let nk = if k < i {
                    k
                } else {
                    k - 1
                };
                assert(self.entries@[nk] == olds[k]);
            }
            if self.spec_has(s, x) {
                let k = choose|k: int|
                    0 <= k < self.entries@.len() && self.entries@[k].script_id@ == s
                        && self.entries@[k].index as nat == x;
                let ok = if k < i {
                    k
                } else {
                    k + 1
                };
                assert(self.entries@[k] == olds[ok]);
            }
        }
        assert forall|s: Seq<char>, x: nat, k: int|
            #![trigger olds[k].script_id@, self.spec_at(s, x)]
            !(s == olds[i].script_id@ && x == olds[i].index as nat) && 0 <= k < olds.len()
                && olds[k].script_id@ == s && olds[k].index as nat == x implies self.spec_at(s, x)
            == olds[k].state by {
            assert(k != i);
            let nk = if k < i {
                k
            } else {
                k - 1
            };
            assert(self.entries@[nk] == olds[k]);
            self.lemma_at_witness(s, x, nk);
        }
    }
}

} // verus!
