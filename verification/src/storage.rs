//! Script records and their in-memory store.
//!
//! The store maps script ids to runtime records, keeps insertion order (the
//! engine runs triggered scripts in this order), and owns the lifecycle
//! rules: enable/disable flip `enabled` and the status together, a
//! successful run clears the error count, and five consecutive failures
//! latch the script into the `Error` status until it is explicitly
//! re-enabled. Persistence to disk is the embedding application's business;
//! the store itself is pure state.

use vstd::prelude::*;

use crate::model::{DefinitionV, ScriptDefinition};
use crate::text::str_eq;

verus! {

/// Lifecycle status of a script.
#[derive(Clone, Copy, PartialEq, Eq, Structural, Debug)]
pub enum ScriptStatus {
    /// Will be considered by the trigger manager.
    Active,
    /// Disabled; never triggered.
    Paused,
    /// Latched after five consecutive failures; never triggered until
    /// explicitly re-enabled.
    Error,
    /// Currently executing.
    Running,
}

/// A script with its runtime record.
pub struct Script {
    pub definition: ScriptDefinition,
    pub status: ScriptStatus,
    /// Epoch milliseconds of the last run, if any.
    pub last_run: Option<u64>,
    /// Outcome text of the last run, if any.
    pub last_result: Option<String>,
    /// Consecutive failures; reset by a successful run.
    pub error_count: u32,
    pub created_at: u64,
    pub updated_at: u64,
}

/// The view of a script record.
pub struct ScriptV {
    pub definition: DefinitionV,
    pub status: ScriptStatus,
    pub last_run: Option<u64>,
    pub last_result: Option<Seq<char>>,
    pub error_count: nat,
    pub created_at: nat,
    pub updated_at: nat,
}

impl View for Script {
    type V = ScriptV;

    open spec fn view(&self) -> ScriptV {
        ScriptV {
            definition: self.definition@,
            status: self.status,
            last_run: self.last_run,
            last_result: match self.last_result {
                Some(ref s) => Some(s@),
                None => None,
            },
            error_count: self.error_count as nat,
            created_at: self.created_at as nat,
            updated_at: self.updated_at as nat,
        }
    }
}

/// A script is eligible for triggering only when it is both enabled and in
/// the `Active` status; in particular a script latched in `Error` is never
/// eligible.
pub open spec fn script_runnable(s: ScriptV) -> bool {
    s.status == ScriptStatus::Active && s.definition.enabled
}

/// How many consecutive failures latch a script into `Error`.
pub open spec fn error_latch_threshold() -> nat {
    5
}

/// The in-memory script store: insertion-ordered, one record per id.
pub struct ScriptStorage {
    scripts: Vec<Script>,
}

/// No two records share an id.
spec fn ids_unique(s: Seq<Script>) -> bool {
    forall|i: int, j: int| 0 <= i < j < s.len() ==> s[i].definition.id@ != s[j].definition.id@
}

/// The runnable records among `s`, in order.
pub open spec fn runnable_filter(s: Seq<ScriptV>) -> Seq<ScriptV> {
    s.filter(|x: ScriptV| script_runnable(x))
}

/// Everything the trigger manager can select is runnable: in particular a
/// script latched in `Error` is never selected until it is explicitly
/// re-enabled.
pub proof fn lemma_active_excludes_error(st: &ScriptStorage, k: int)
    requires
        0 <= k < st.spec_active().len(),
    ensures
        script_runnable(st.spec_active()[k]),
        st.spec_active()[k].status != ScriptStatus::Error,
{
    st.spec_seq().lemma_filter_pred(|x: ScriptV| script_runnable(x), k);
}

/// One unfolding step of [`runnable_filter`] at the end of a sequence.
pub proof fn lemma_runnable_filter_step(s: Seq<ScriptV>)
    requires
        s.len() > 0,
    ensures
        runnable_filter(s) == if script_runnable(s.last()) {
            runnable_filter(s.drop_last()).push(s.last())
        } else {
            runnable_filter(s.drop_last())
        },
{
    reveal(Seq::filter);
}

/// A record selected by [`runnable_filter`] is a record of the sequence.
pub proof fn lemma_filter_member(s: Seq<ScriptV>, x: ScriptV)
    requires
        runnable_filter(s).contains(x),
    ensures
        s.contains(x),
    decreases s.len(),
{
    reveal(Seq::filter);
    if s.len() == 0 {
    } else {
        let f = runnable_filter(s);
        let fd = runnable_filter(s.drop_last());
        if script_runnable(s.last()) && x == s.last() {
            assert(s[s.len() - 1] == x);
        } else {
            if script_runnable(s.last()) {
                let i = choose|i: int| 0 <= i < f.len() && f[i] == x;
                assert(fd[i] == x);
                assert(fd.contains(x));
            } else {
                assert(f == fd);
            }
            lemma_filter_member(s.drop_last(), x);
            let j = choose|j: int| 0 <= j < s.drop_last().len() && s.drop_last()[j] == x;
            assert(s[j] == x);
        }
    }
}

/// Filtering keeps ids pairwise distinct.
proof fn lemma_filter_unique_ids(s: Seq<ScriptV>)
    requires
        forall|i: int, j: int|
            0 <= i < j < s.len() ==> s[i].definition.id != s[j].definition.id,
    ensures
        forall|i: int, j: int|
            0 <= i < j < runnable_filter(s).len() ==> runnable_filter(s)[i].definition.id
                != runnable_filter(s)[j].definition.id,
    decreases s.len(),
{
    reveal(Seq::filter);
    if s.len() == 0 {
    } else {
        lemma_filter_unique_ids(s.drop_last());
        let f = runnable_filter(s);
        let fd = runnable_filter(s.drop_last());
        if script_runnable(s.last()) {
            assert forall|i: int, j: int|
                0 <= i < j < f.len() implies f[i].definition.id != f[j].definition.id by {
                if j < fd.len() {
                } else {
                    assert(f[j] == s.last());
                    assert(f[i] == fd[i]);
                    assert(fd.contains(fd[i]));
                    lemma_filter_member(s.drop_last(), fd[i]);
                    let k = choose|k: int|
                        0 <= k < s.drop_last().len() && s.drop_last()[k] == fd[i];
                    assert(s[k] == fd[i]);
                    assert(s[k].definition.id != s[s.len() - 1].definition.id);
                }
            }
        }
    }
}

/// No two runnable records share an id: a selection of distinct runnable
/// records is a selection of distinct script ids.
pub proof fn lemma_active_ids_unique(st: &ScriptStorage, k: int, l: int)
    requires
        st.wf(),
        0 <= k < l < st.spec_active().len(),
    ensures
        st.spec_active()[k].definition.id != st.spec_active()[l].definition.id,
{
    assert forall|i: int, j: int|
        0 <= i < j < st.spec_seq().len() implies st.spec_seq()[i].definition.id
        != st.spec_seq()[j].definition.id by {
        assert(st.scripts@[i].definition.id@ != st.scripts@[j].definition.id@);
        assert(st.spec_seq()[i] == st.scripts@[i]@);
        assert(st.spec_seq()[j] == st.scripts@[j]@);
    }
    lemma_filter_unique_ids(st.spec_seq());
}

/// Every runnable record is stored under its id.
pub proof fn lemma_active_has(st: &ScriptStorage, k: int)
    requires
        0 <= k < st.spec_active().len(),
    ensures
        st.spec_has(st.spec_active()[k].definition.id),
{
    let x = st.spec_active()[k];
    assert(runnable_filter(st.spec_seq()).contains(x));
    lemma_filter_member(st.spec_seq(), x);
    let j = choose|j: int| 0 <= j < st.spec_seq().len() && st.spec_seq()[j] == x;
    assert(st.scripts@[j]@ == x);
    assert(st.scripts@[j].definition.id@ == x.definition.id);
}

impl ScriptStorage {
    /// The records in insertion order, as views.
    pub closed spec fn spec_seq(&self) -> Seq<ScriptV> {
        self.scripts@.map_values(|s: Script| s@)
    }

    /// Number of stored scripts.
    pub open spec fn spec_len(&self) -> nat {
        self.spec_seq().len()
    }

    /// Some record holds `id`.
    pub closed spec fn spec_has(&self, id: Seq<char>) -> bool {
        exists|i: int| 0 <= i < self.scripts@.len() && self.scripts@[i].definition.id@ == id
    }

    /// The record under `id` (meaningful when `spec_has`).
    pub closed spec fn spec_at(&self, id: Seq<char>) -> ScriptV {
        let i = choose|i: int|
            0 <= i < self.scripts@.len() && self.scripts@[i].definition.id@ == id;
        self.scripts@[i]@
    }

    /// The record under `id`, as an `Option`.
    pub open spec fn spec_get(&self, id: Seq<char>) -> Option<ScriptV> {
        if self.spec_has(id) {
            Some(self.spec_at(id))
        } else {
            None
        }
    }

    /// Structural invariant: unique ids.
    pub closed spec fn wf(&self) -> bool {
        ids_unique(self.scripts@)
    }

    proof fn lemma_at_witness(&self, id: Seq<char>, i: int)
        requires
            self.wf(),
            0 <= i < self.scripts@.len(),
            self.scripts@[i].definition.id@ == id,
        ensures
            self.spec_has(id),
            self.spec_at(id) == self.scripts@[i]@,
    {
        assert(self.spec_has(id));
        let j = choose|j: int|
            0 <= j < self.scripts@.len() && self.scripts@[j].definition.id@ == id;
        if i < j {
            assert(self.scripts@[i].definition.id@ != self.scripts@[j].definition.id@);
        } else if j < i {
            assert(self.scripts@[j].definition.id@ != self.scripts@[i].definition.id@);
        }
    }

    /// An empty store.
    pub fn new() -> (r: Self)
        ensures
            r.wf(),
            r.spec_len() == 0,
            forall|id: Seq<char>| !r.spec_has(id),
    {
        ScriptStorage { scripts: Vec::new() }
    }

    /// The index of the record for `id`, if one exists.
    fn find(&self, id: &str) -> (r: Option<usize>)
        requires
            self.wf(),
        ensures
            match r {
                Some(i) => i < self.scripts@.len() && self.scripts@[i as int].definition.id@
                    == id@ && self.spec_has(id@) && self.spec_at(id@) == self.scripts@[i as int]@,
                None => !self.spec_has(id@),
            },
    {
        let n = self.scripts.len();
        let mut i: usize = 0;
        while i < n
            invariant
                self.wf(),
                n == self.scripts@.len(),
                i <= n,
                forall|k: int| 0 <= k < i ==> self.scripts@[k].definition.id@ != id@,
            decreases n - i,
        {
            if str_eq(self.scripts[i].definition.id.as_str(), id) {
                proof {
                    self.lemma_at_witness(id@, i as int);
                }
                return Some(i);
            }
            i = i + 1;
        }
        None
    }

    /// The fresh record a newly deployed definition gets.
    pub open spec fn spec_fresh(d: DefinitionV, now_ms: nat) -> ScriptV {
        ScriptV {
            definition: d,
            status: if d.enabled {
                ScriptStatus::Active
            } else {
                ScriptStatus::Paused
            },
            last_run: None,
            last_result: None,
            error_count: 0,
            created_at: now_ms,
            updated_at: now_ms,
        }
    }

    /// Deploy a definition at time `now_ms`: replace any record with the
    /// same id by a fresh one, or append a fresh record.
    ///
    /// Deploy-then-fetch round-trip: afterwards the record under the
    /// definition's id holds exactly the deployed definition, so
    /// re-serializing the fetched definition reproduces the deployed bytes
    /// (serialization is a function of the definition alone).
    pub fn add_script(&mut self, definition: ScriptDefinition, now_ms: u64)
        requires
            old(self).wf(),
        ensures
            final(self).wf(),
            final(self).spec_has(definition@.id),
            final(self).spec_at(definition@.id) == ScriptStorage::spec_fresh(
                definition@,
                now_ms as nat,
            ),
            final(self).spec_at(definition@.id).definition == definition@,
            forall|id: Seq<char>|
                id != definition@.id ==> #[trigger] final(self).spec_has(id) == old(
                    self,
                ).spec_has(id),
            forall|id: Seq<char>|
                id != definition@.id && old(self).spec_has(id) ==> #[trigger] final(self).spec_at(
                    id,
                ) == old(self).spec_at(id),
            final(self).spec_len() == if old(self).spec_has(definition@.id) {
                old(self).spec_len()
            } else {
                old(self).spec_len() + 1
            },
    {
        let status = if definition.enabled {
            ScriptStatus::Active
        } else {
            ScriptStatus::Paused
        };
        let ghost defv = definition@;
        let id_copy = definition.id.clone();
        let record = Script {
            definition,
            status,
            last_run: None,
            last_result: None,
            error_count: 0,
            created_at: now_ms,
            updated_at: now_ms,
        };
        let found = self.find(id_copy.as_str());
        match found {
            Some(i) => {
                let ghost olds = self.scripts@;
                self.scripts[i] = record;
                proof {
                    assert(olds[i as int].definition.id@ == defv.id);
                    assert forall|k: int|
                        0 <= k < self.scripts@.len() implies self.scripts@[k].definition.id@
                        == olds[k].definition.id@ by {}
                    self.lemma_at_witness(defv.id, i as int);
                    self.lemma_others_after_update(olds, defv.id, i as int);
                }
            },
            None => {
                let ghost olds = self.scripts@;
                self.scripts.push(record);
                proof {
                    let n = olds.len() as int;
                    assert forall|x: int, y: int|
                        0 <= x < y < self.scripts@.len() implies self.scripts@[x].definition.id@
                        != self.scripts@[y].definition.id@ by {
                        if y < n {
                        } else {
                            if self.scripts@[x].definition.id@ == defv.id {
                                assert(old(self).spec_has(defv.id));
                            }
                        }
                    }
                    self.lemma_at_witness(defv.id, n);
                    self.lemma_others_after_push(olds, defv.id);
                }
            },
        }
    }

    /// After replacing the record at index `i` (whose id is `id`), every
    /// other id resolves as before.
    proof fn lemma_others_after_update(&self, olds: Seq<Script>, id: Seq<char>, i: int)
        requires
            self.wf(),
            ids_unique(olds),
            self.scripts@.len() == olds.len(),
            0 <= i < olds.len(),
            olds[i].definition.id@ == id,
            self.scripts@[i].definition.id@ == id,
            forall|k: int| 0 <= k < olds.len() && k != i ==> self.scripts@[k] == olds[k],
        ensures
            forall|x: Seq<char>|
                x != id ==> #[trigger] self.spec_has(x) == exists|k: int|
                    0 <= k < olds.len() && olds[k].definition.id@ == x,
            forall|x: Seq<char>, k: int|
                #![trigger olds[k].definition.id@, self.spec_at(x)]
                x != id && 0 <= k < olds.len() && olds[k].definition.id@ == x
                    ==> self.spec_at(x) == olds[k]@,
    {
        assert forall|x: Seq<char>| x != id implies #[trigger] self.spec_has(x) == exists|k: int|
            0 <= k < olds.len() && olds[k].definition.id@ == x by {
            if exists|k: int| 0 <= k < olds.len() && olds[k].definition.id@ == x {
                let k = choose|k: int| 0 <= k < olds.len() && olds[k].definition.id@ == x;
                assert(self.scripts@[k].definition.id@ == x);
            }
            if self.spec_has(x) {
                let k = choose|k: int|
                    0 <= k < self.scripts@.len() && self.scripts@[k].definition.id@ == x;
                assert(olds[k].definition.id@ == x);
            }
        }
        assert forall|x: Seq<char>, k: int|
            #![trigger olds[k].definition.id@, self.spec_at(x)]
            x != id && 0 <= k < olds.len() && olds[k].definition.id@ == x implies self.spec_at(x)
            == olds[k]@ by {
            assert(self.scripts@[k].definition.id@ == x);
            self.lemma_at_witness(x, k);
        }
    }

    /// After appending a record with id `id`, every other id resolves as
    /// before.
    proof fn lemma_others_after_push(&self, olds: Seq<Script>, id: Seq<char>)
        requires
            self.wf(),
            ids_unique(olds),
            self.scripts@.len() == olds.len() + 1,
            self.scripts@[olds.len() as int].definition.id@ == id,
            forall|k: int| 0 <= k < olds.len() ==> self.scripts@[k] == olds[k],
        ensures
            forall|x: Seq<char>|
                x != id ==> #[trigger] self.spec_has(x) == exists|k: int|
                    0 <= k < olds.len() && olds[k].definition.id@ == x,
            forall|x: Seq<char>, k: int|
                #![trigger olds[k].definition.id@, self.spec_at(x)]
                x != id && 0 <= k < olds.len() && olds[k].definition.id@ == x
                    ==> self.spec_at(x) == olds[k]@,
    {
        let n = olds.len() as int;
        assert forall|x: Seq<char>| x != id implies #[trigger] self.spec_has(x) == exists|k: int|
            0 <= k < olds.len() && olds[k].definition.id@ == x by {
            if exists|k: int| 0 <= k < olds.len() && olds[k].definition.id@ == x {
                let k = choose|k: int| 0 <= k < olds.len() && olds[k].definition.id@ == x;
                assert(self.scripts@[k].definition.id@ == x);
            }
            if self.spec_has(x) {
                let k = choose|k: int|
                    0 <= k < self.scripts@.len() && self.scripts@[k].definition.id@ == x;
                assert(k < n);
                assert(olds[k].definition.id@ == x);
            }
        }
        assert forall|x: Seq<char>, k: int|
            #![trigger olds[k].definition.id@, self.spec_at(x)]
            x != id && 0 <= k < olds.len() && olds[k].definition.id@ == x implies self.spec_at(x)
            == olds[k]@ by {
            assert(self.scripts@[k].definition.id@ == x);
            self.lemma_at_witness(x, k);
        }
    }

    /// The record under `id`, borrowed.
    pub fn get(&self, id: &str) -> (r: Option<&Script>)
        requires
            self.wf(),
        ensures
            match r {
                Some(s) => self.spec_get(id@) == Some(s@),
                None => self.spec_get(id@) is None,
            },
    {
        match self.find(id) {
            Some(i) => Some(&self.scripts[i]),
            None => None,
        }
    }

    /// The record at position `i` of the insertion order, borrowed.
    pub fn at_index(&self, i: usize) -> (r: &Script)
        requires
            i < self.spec_len(),
        ensures
            r@ == self.spec_seq()[i as int],
    {
        &self.scripts[i]
    }

    /// Number of stored scripts.
    pub fn count(&self) -> (r: usize)
        ensures
            r as nat == self.spec_len(),
    {
        self.scripts.len()
    }

    /// Every stored record, in insertion order.
    pub fn get_all(&self) -> (r: Vec<&Script>)
        ensures
            r@.len() == self.spec_len(),
            forall|i: int| 0 <= i < r@.len() ==> r@[i]@ == self.spec_seq()[i],
    {
        let n = self.scripts.len();
        let mut r: Vec<&Script> = Vec::new();
        let mut i: usize = 0;
        while i < n
            invariant
                n == self.scripts@.len(),
                i <= n,
                r@.len() == i,
                forall|k: int| 0 <= k < i ==> r@[k]@ == self.spec_seq()[k],
            decreases n - i,
        {
            r.push(&self.scripts[i]);
            i = i + 1;
        }
        r
    }

    /// The sequence of runnable records (enabled and `Active`), in
    /// insertion order: the set the trigger manager sees. Scripts latched in
    /// `Error`, paused scripts and disabled scripts are all excluded.
    pub open spec fn spec_active(&self) -> Seq<ScriptV> {
        runnable_filter(self.spec_seq())
    }

    /// The runnable records (enabled and `Active`), in insertion order.
    pub fn get_active(&self) -> (r: Vec<&Script>)
        ensures
            r@.map_values(|x: &Script| x@) == self.spec_active(),
    {
        let n = self.scripts.len();
        let mut r: Vec<&Script> = Vec::new();
        let mut i: usize = 0;
        while i < n
            invariant
                n == self.scripts@.len(),
                i <= n,
                r@.map_values(|x: &Script| x@) =~= runnable_filter(
                    self.scripts@.subrange(0, i as int).map_values(|s: Script| s@),
                ),
            decreases n - i,
        {
            let s = &self.scripts[i];
            let runnable = match s.status {
                ScriptStatus::Active => s.definition.enabled,
                _ => false,
            };
            let ghost pre = self.scripts@.subrange(0, i as int).map_values(|s: Script| s@);
            let ghost cur = self.scripts@.subrange(0, i + 1 as int).map_values(|s: Script| s@);
            proof {
                assert(cur.drop_last() =~= pre);
                assert(cur.last() == self.scripts@[i as int]@);
                assert(runnable == script_runnable(cur.last()));
                lemma_runnable_filter_step(cur);
            }
            let ghost oldr = r@;
            if runnable {
                r.push(s);
                proof {
                    assert(r@.map_values(|x: &Script| x@) =~= oldr.map_values(
                        |x: &Script| x@,
                    ).push(self.scripts@[i as int]@));
                }
            }
            i = i + 1;
        }
        proof {
            assert(self.scripts@.subrange(0, n as int) =~= self.scripts@);
        }
        r
    }

    /// Set the status of the record under `id`. Returns whether one
    /// existed.
    pub fn set_status(&mut self, id: &str, status: ScriptStatus) -> (r: bool)
        requires
            old(self).wf(),
        ensures
            final(self).wf(),
            r == old(self).spec_has(id@),
            final(self).spec_len() == old(self).spec_len(),
            old(self).spec_has(id@) ==> final(self).spec_has(id@) && final(self).spec_at(id@)
                == (ScriptV { status, ..old(self).spec_at(id@) }),
            !old(self).spec_has(id@) ==> *final(self) == *old(self),
            forall|x: Seq<char>|
                x != id@ ==> #[trigger] final(self).spec_has(x) == old(self).spec_has(x),
            forall|x: Seq<char>|
                x != id@ && old(self).spec_has(x) ==> #[trigger] final(self).spec_at(x) == old(
                    self,
                ).spec_at(x),
    {
        let found = self.find(id);
        match found {
            Some(i) => {
                let ghost olds = self.scripts@;
                self.scripts[i].status = status;
                proof {
                    self.lemma_record_update(olds, id@, i as int);
                }
                true
            },
            None => false,
        }
    }

    /// The record after a run outcome is applied: stamp the run, clear the
    /// error count on success (a `Running` script returns to `Active`);
    /// count the failure otherwise, and latch the status to `Error` once
    /// the count reaches the threshold.
    pub open spec fn spec_apply_result(
        s: ScriptV,
        success: bool,
        result: Seq<char>,
        now_ms: nat,
    ) -> ScriptV {
        if success {
            // A successful run always clears the error count. A record
            // latched in `Error` keeps its status (sticky until an
            // explicit re-enable): only `Running` returns to `Active`.
            ScriptV {
                last_run: Some(now_ms as u64),
                last_result: Some(result),
                error_count: 0,
                status: if s.status == ScriptStatus::Running {
                    ScriptStatus::Active
                } else {
                    s.status
                },
                ..s
            }
        } else {
            let c = if s.error_count < 0xffff_ffff {
                s.error_count + 1
            } else {
                s.error_count
            };
            ScriptV {
                last_run: Some(now_ms as u64),
                last_result: Some(result),
                error_count: c,
                status: if c >= error_latch_threshold() {
                    ScriptStatus::Error
                } else if s.status == ScriptStatus::Running {
                    ScriptStatus::Active
                } else {
                    s.status
                },
                ..s
            }
        }
    }

    /// Record the outcome of a run: the only hot-path mutator. On success
    /// the error count resets; on failure it grows, and reaching the
    /// threshold latches the script into `Error` (the sticky-error rule).
    pub fn update_result(&mut self, id: &str, success: bool, result: &str, now_ms: u64)
        requires
            old(self).wf(),
        ensures
            final(self).wf(),
            final(self).spec_len() == old(self).spec_len(),
            old(self).spec_has(id@) ==> final(self).spec_has(id@) && final(self).spec_at(id@)
                == ScriptStorage::spec_apply_result(
                old(self).spec_at(id@),
                success,
                result@,
                now_ms as nat,
            ),
            !old(self).spec_has(id@) ==> *final(self) == *old(self),
            forall|x: Seq<char>|
                x != id@ ==> #[trigger] final(self).spec_has(x) == old(self).spec_has(x),
            forall|x: Seq<char>|
                x != id@ && old(self).spec_has(x) ==> #[trigger] final(self).spec_at(x) == old(
                    self,
                ).spec_at(x),
    {
        let found = self.find(id);
        match found {
            Some(i) => {
                let ghost olds = self.scripts@;
                self.scripts[i].last_run = Some(now_ms);
                self.scripts[i].last_result = Some(result.to_owned());
                if success {
                    self.scripts[i].error_count = 0;
                    match self.scripts[i].status {
                        ScriptStatus::Running => {
                            self.scripts[i].status = ScriptStatus::Active;
                        },
                        _ => {},
                    }
                } else {
                    let c = self.scripts[i].error_count;
                    let newc = if c < 0xffff_ffff {
                        c + 1
                    } else {
                        c
                    };
                    self.scripts[i].error_count = newc;
                    if newc >= 5 {
                        self.scripts[i].status = ScriptStatus::Error;
                    } else {
                        match self.scripts[i].status {
                            ScriptStatus::Running => {
                                self.scripts[i].status = ScriptStatus::Active;
                            },
                            _ => {},
                        }
                    }
                }
                proof {
                    self.lemma_record_update(olds, id@, i as int);
                }
            },
            None => {},
        }
    }

    /// Enable the script under `id`: set `enabled`, return the status to
    /// `Active` (clearing an `Error` latch), stamp `updated_at`. Returns
    /// whether the script existed.
    ///
    /// Re-enabling an already enabled script leaves the definition exactly
    /// as it was, so re-persisting it writes identical content.
    pub fn enable(&mut self, id: &str, now_ms: u64) -> (r: bool)
        requires
            old(self).wf(),
        ensures
            final(self).wf(),
            r == old(self).spec_has(id@),
            final(self).spec_len() == old(self).spec_len(),
            old(self).spec_has(id@) ==> final(self).spec_has(id@) && final(self).spec_at(id@)
                == (ScriptV {
                definition: DefinitionV { enabled: true, ..old(self).spec_at(id@).definition },
                status: ScriptStatus::Active,
                updated_at: now_ms as nat,
                ..old(self).spec_at(id@)
            }),
            old(self).spec_has(id@) && old(self).spec_at(id@).definition.enabled
                ==> final(self).spec_at(id@).definition == old(self).spec_at(id@).definition,
            !old(self).spec_has(id@) ==> *final(self) == *old(self),
            forall|x: Seq<char>|
                x != id@ ==> #[trigger] final(self).spec_has(x) == old(self).spec_has(x),
            forall|x: Seq<char>|
                x != id@ && old(self).spec_has(x) ==> #[trigger] final(self).spec_at(x) == old(
                    self,
                ).spec_at(x),
    {
        let found = self.find(id);
        match found {
            Some(i) => {
                let ghost olds = self.scripts@;
                self.scripts[i].definition.enabled = true;
                self.scripts[i].status = ScriptStatus::Active;
                self.scripts[i].updated_at = now_ms;
                proof {
                    self.lemma_record_update(olds, id@, i as int);
                }
                true
            },
            None => false,
        }
    }

    /// Disable the script under `id`: clear `enabled`, pause it, stamp
    /// `updated_at`. Returns whether the script existed.
    pub fn disable(&mut self, id: &str, now_ms: u64) -> (r: bool)
        requires
            old(self).wf(),
        ensures
            final(self).wf(),
            r == old(self).spec_has(id@),
            final(self).spec_len() == old(self).spec_len(),
            old(self).spec_has(id@) ==> final(self).spec_has(id@) && final(self).spec_at(id@)
                == (ScriptV {
                definition: DefinitionV { enabled: false, ..old(self).spec_at(id@).definition },
                status: ScriptStatus::Paused,
                updated_at: now_ms as nat,
                ..old(self).spec_at(id@)
            }),
            !old(self).spec_has(id@) ==> *final(self) == *old(self),
            forall|x: Seq<char>|
                x != id@ ==> #[trigger] final(self).spec_has(x) == old(self).spec_has(x),
            forall|x: Seq<char>|
                x != id@ && old(self).spec_has(x) ==> #[trigger] final(self).spec_at(x) == old(
                    self,
                ).spec_at(x),
    {
        let found = self.find(id);
        match found {
            Some(i) => {
                let ghost olds = self.scripts@;
                self.scripts[i].definition.enabled = false;
                self.scripts[i].status = ScriptStatus::Paused;
                self.scripts[i].updated_at = now_ms;
                proof {
                    self.lemma_record_update(olds, id@, i as int);
                }
                true
            },
            None => false,
        }
    }

    /// After updating the record at index `i` without changing its id,
    /// well-formedness holds, the id resolves to the new record, and every
    /// other id resolves as before.
    proof fn lemma_record_update(&self, olds: Seq<Script>, id: Seq<char>, i: int)
        requires
            ids_unique(olds),
            self.scripts@.len() == olds.len(),
            0 <= i < olds.len(),
            olds[i].definition.id@ == id,
            self.scripts@[i].definition.id@ == id,
            forall|k: int| 0 <= k < olds.len() && k != i ==> self.scripts@[k] == olds[k],
        ensures
            self.wf(),
            self.spec_has(id),
            self.spec_at(id) == self.scripts@[i]@,
            forall|x: Seq<char>|
                x != id ==> #[trigger] self.spec_has(x) == exists|k: int|
                    0 <= k < olds.len() && olds[k].definition.id@ == x,
            forall|x: Seq<char>, k: int|
                #![trigger olds[k].definition.id@, self.spec_at(x)]
                x != id && 0 <= k < olds.len() && olds[k].definition.id@ == x ==> self.spec_at(x)
                    == olds[k]@,
    {
        assert forall|x: int, y: int|
            0 <= x < y < self.scripts@.len() implies self.scripts@[x].definition.id@
            != self.scripts@[y].definition.id@ by {
            assert(self.scripts@[x].definition.id@ == olds[x].definition.id@);
            assert(self.scripts@[y].definition.id@ == olds[y].definition.id@);
        }
        self.lemma_at_witness(id, i);
        self.lemma_others_after_update(olds, id, i);
    }

    /// Remove the record under `id`. Returns whether one existed.
    pub fn delete(&mut self, id: &str) -> (r: bool)
        requires
            old(self).wf(),
        ensures
            final(self).wf(),
            r == old(self).spec_has(id@),
            !final(self).spec_has(id@),
            forall|x: Seq<char>|
                x != id@ ==> #[trigger] final(self).spec_has(x) == old(self).spec_has(x),
            forall|x: Seq<char>|
                x != id@ && old(self).spec_has(x) ==> #[trigger] final(self).spec_at(x) == old(
                    self,
                ).spec_at(x),
            final(self).spec_len() == if old(self).spec_has(id@) {
                old(self).spec_len() - 1
            } else {
                old(self).spec_len() as int
            },
    {
        let found = self.find(id);
        match found {
            Some(i) => {
                let ghost olds = self.scripts@;
                self.scripts.remove(i);
                proof {
                    assert forall|x: int, y: int|
                        0 <= x < y < self.scripts@.len() implies self.scripts@[x].definition.id@
                        != self.scripts@[y].definition.id@ by {
                        let ox = if x < i as int {
                            x
                        } else {
                            x + 1
                        };
                        let oy = if y < i as int {
                            y
                        } else {
                            y + 1
                        };
                        assert(self.scripts@[x] == olds[ox]);
                        assert(self.scripts@[y] == olds[oy]);
                    }
                    assert forall|x: Seq<char>| #[trigger] self.spec_has(x) implies x != id@ by {
                        if self.spec_has(x) {
                            let k = choose|k: int|
                                0 <= k < self.scripts@.len() && self.scripts@[k].definition.id@
                                    == x;
                            let ok = if k < i as int {
                                k
                            } else {
                                k + 1
                            };
                            assert(olds[ok].definition.id@ == x);
                            if x == id@ {
                                assert(olds[i as int].definition.id@ == id@);
                            }
                        }
                    }
                    assert forall|x: Seq<char>| x != id@ implies #[trigger] self.spec_has(x)
                        == old(self).spec_has(x) by {
                        if old(self).spec_has(x) {
                            let k = choose|k: int|
                                0 <= k < olds.len() && olds[k].definition.id@ == x;
                            let nk = if k < i as int {
                                k
                            } else {
                                k - 1
                            };
                            assert(k != i as int);
                            assert(self.scripts@[nk] == olds[k]);
                        }
                        if self.spec_has(x) {
                            let k = choose|k: int|
                                0 <= k < self.scripts@.len() && self.scripts@[k].definition.id@
                                    == x;
                            let ok = if k < i as int {
                                k
                            } else {
                                k + 1
                            };
                            assert(olds[ok].definition.id@ == x);
                            assert(old(self).spec_has(x));
                        }
                    }
                    assert forall|x: Seq<char>| x != id@ && old(self).spec_has(x) implies #[trigger] self
                        .spec_at(x) == old(self).spec_at(x) by {
                        let k = choose|k: int| 0 <= k < olds.len() && olds[k].definition.id@ == x;
                        let nk = if k < i as int {
                            k
                        } else {
                            k - 1
                        };
                        assert(k != i as int);
                        assert(self.scripts@[nk] == olds[k]);
                        self.lemma_at_witness(x, nk);
                        old(self).lemma_at_witness(x, k);
                    }
                }
                true
            },
            None => false,
        }
    }
}

} // verus!
