//! A string-keyed table of dynamic values, with at most one entry per key.
//!
//! This is the storage behind the script context's sensor, GPIO and
//! variable namespaces. Its abstract state is the pair of spec functions
//! [`ValueTable::spec_has`] / [`ValueTable::spec_at`].

use vstd::prelude::*;

use crate::value::{Value, ValueV};

verus! {

struct TableEntry {
    key: String,
    value: Value,
}

/// A mapping from names to values; insertion replaces.
pub struct ValueTable {
    entries: Vec<TableEntry>,
}

/// No two entries share a key.
spec fn keys_unique(s: Seq<TableEntry>) -> bool {
    forall|i: int, j: int| 0 <= i < j < s.len() ==> s[i].key@ != s[j].key@
}

impl ValueTable {
    /// Some entry holds `key`.
    pub closed spec fn spec_has(&self, key: Seq<char>) -> bool {
        exists|i: int| 0 <= i < self.entries@.len() && self.entries@[i].key@ == key
    }

    /// The value stored under `key` (meaningful when `spec_has`).
    pub closed spec fn spec_at(&self, key: Seq<char>) -> ValueV {
        let i = choose|i: int| 0 <= i < self.entries@.len() && self.entries@[i].key@ == key;
        self.entries@[i].value@
    }

    /// The value stored under `key`, as an `Option`.
    pub open spec fn spec_get(&self, key: Seq<char>) -> Option<ValueV> {
        if self.spec_has(key) {
            Some(self.spec_at(key))
        } else {
            None
        }
    }

    /// Structural invariant: unique keys.
    pub closed spec fn wf(&self) -> bool {
        keys_unique(self.entries@)
    }

    proof fn lemma_at_witness(&self, key: Seq<char>, i: int)
        requires
            self.wf(),
            0 <= i < self.entries@.len(),
            self.entries@[i].key@ == key,
        ensures
            self.spec_has(key),
            self.spec_at(key) == self.entries@[i].value@,
    {
        assert(self.spec_has(key));
        let j = choose|j: int| 0 <= j < self.entries@.len() && self.entries@[j].key@ == key;
        if i < j {
            assert(self.entries@[i].key@ != self.entries@[j].key@);
        } else if j < i {
            assert(self.entries@[j].key@ != self.entries@[i].key@);
        }
    }

    /// An empty table.
    pub fn new() -> (r: Self)
        ensures
            r.wf(),
            forall|k: Seq<char>| !r.spec_has(k),
    {
        ValueTable { entries: Vec::new() }
    }

    /// Drop every entry.
    pub fn clear(&mut self)
        ensures
            final(self).wf(),
            forall|k: Seq<char>| !final(self).spec_has(k),
    {
        self.entries.clear();
    }

    /// The index of the entry for `key`, if one exists.
    fn find(&self, key: &Vec<char>) -> (r: Option<usize>)
        requires
            self.wf(),
        ensures
            match r {
                Some(i) => i < self.entries@.len() && self.entries@[i as int].key@ == key@
                    && self.spec_has(key@) && self.spec_at(key@) == self.entries@[i as int].value@,
                None => !self.spec_has(key@),
            },
    {
        let n = self.entries.len();
        let mut i: usize = 0;
        while i < n
            invariant
                self.wf(),
                n == self.entries@.len(),
                i <= n,
                forall|k: int| 0 <= k < i ==> self.entries@[k].key@ != key@,
            decreases n - i,
        {
            let e = &self.entries[i];
            let kc = crate::text::str_chars(e.key.as_str());
            let same = crate::text::chars_eq(&kc, key);
            if same {
                proof {
                    self.lemma_at_witness(key@, i as int);
                }
                return Some(i);
            }
            i = i + 1;
        }
        None
    }

    /// The value stored under `key`, copied out.
    pub fn get(&self, key: &Vec<char>) -> (r: Option<Value>)
        requires
            self.wf(),
        ensures
            match r {
                Some(v) => self.spec_get(key@) == Some(v@),
                None => self.spec_get(key@) is None,
            },
    {
        match self.find(key) {
            Some(i) => Some(self.entries[i].value.duplicate()),
            None => None,
        }
    }

    /// Store `value` under `key`, replacing any previous entry.
    pub fn set(&mut self, key: &str, value: Value)
        requires
            old(self).wf(),
        ensures
            final(self).wf(),
            final(self).spec_has(key@),
            final(self).spec_at(key@) == value@,
            forall|k: Seq<char>|
                k != key@ ==> #[trigger] final(self).spec_has(k) == old(self).spec_has(k),
            forall|k: Seq<char>|
                k != key@ && old(self).spec_has(k) ==> #[trigger] final(self).spec_at(k) == old(
                    self,
                ).spec_at(k),
    {
        let kc = crate::text::str_chars(key);
        let found = self.find(&kc);
        let entry = TableEntry { key: key.to_owned(), value };
        match found {
            Some(i) => {
                let ghost olds = self.entries@;
                self.entries[i] = entry;
                proof {
                    assert(olds[i as int].key@ == key@);
                    assert forall|k: int| 0 <= k < self.entries@.len() implies self.entries@[k].key@
                        == olds[k].key@ by {}
                    self.lemma_at_witness(key@, i as int);
                    assert forall|k: Seq<char>| k != key@ implies #[trigger] self.spec_has(k)
                        == old(self).spec_has(k) by {
                        if old(self).spec_has(k) {
                            let x = choose|x: int| 0 <= x < olds.len() && olds[x].key@ == k;
                            assert(self.entries@[x].key@ == k);
                        }
                        if self.spec_has(k) {
                            let x = choose|x: int|
                                0 <= x < self.entries@.len() && self.entries@[x].key@ == k;
                            assert(olds[x].key@ == k);
                        }
                    }
                    assert forall|k: Seq<char>|
                        k != key@ && old(self).spec_has(k) implies #[trigger] self.spec_at(k)
                        == old(self).spec_at(k) by {
                        let x = choose|x: int| 0 <= x < olds.len() && olds[x].key@ == k;
                        self.lemma_at_witness(k, x);
                        old(self).lemma_at_witness(k, x);
                    }
                }
            },
            None => {
                let ghost olds = self.entries@;
                self.entries.push(entry);
                proof {
                    let n = olds.len() as int;
                    assert forall|x: int, y: int|
                        0 <= x < y < self.entries@.len() implies self.entries@[x].key@
                        != self.entries@[y].key@ by {
                        if y < n {
                        } else {
                            if self.entries@[x].key@ == key@ {
                                assert(old(self).spec_has(key@));
                            }
                        }
                    }
                    self.lemma_at_witness(key@, n);
                    assert forall|k: Seq<char>| k != key@ implies #[trigger] self.spec_has(k)
                        == old(self).spec_has(k) by {
                        if old(self).spec_has(k) {
                            let x = choose|x: int| 0 <= x < olds.len() && olds[x].key@ == k;
                            assert(self.entries@[x].key@ == k);
                        }
                        if self.spec_has(k) {
                            let x = choose|x: int|
                                0 <= x < self.entries@.len() && self.entries@[x].key@ == k;
                            assert(x < n);
                            assert(olds[x].key@ == k);
                        }
                    }
                    assert forall|k: Seq<char>|
                        k != key@ && old(self).spec_has(k) implies #[trigger] self.spec_at(k)
                        == old(self).spec_at(k) by {
                        let x = choose|x: int| 0 <= x < olds.len() && olds[x].key@ == k;
                        self.lemma_at_witness(k, x);
                        old(self).lemma_at_witness(k, x);
                    }
                }
            },
        }
    }
}

} // verus!
