//! The variable store: a text-keyed association list with unique keys,
//! modeled as the sequence of its entries.

#![verifier::loop_isolation(false)]

use vstd::prelude::*;

use crate::text::str_eq;

verus! {

/// One stored binding: key and value, both as character sequences.
pub type Entries = Seq<(Seq<char>, Seq<char>)>;

/// The character views of a list of string pairs.
pub open spec fn pairs_view(s: Seq<(String, String)>) -> Entries {
    Seq::new(s.len(), |i: int| (s[i].0@, s[i].1@))
}

/// Index of the first entry bound to `key`, if any.
pub open spec fn find_key(entries: Entries, key: Seq<char>) -> Option<int>
    decreases entries.len(),
{
    if entries.len() == 0 {
        None
    } else if entries[0].0 == key {
        Some(0)
    } else {
        match find_key(entries.skip(1), key) {
            Some(i) => Some(i + 1),
            None => None,
        }
    }
}

/// The value bound to `key`, if any.
pub open spec fn lookup_spec(entries: Entries, key: Seq<char>) -> Option<Seq<char>> {
    match find_key(entries, key) {
        Some(i) => Some(entries[i].1),
        None => None,
    }
}

/// Is some entry bound to `key`?
pub open spec fn has_key(entries: Entries, key: Seq<char>) -> bool {
    find_key(entries, key) is Some
}

/// Bind `key` to `value`: replace the first entry with that key in
/// place, or append a new entry.
pub open spec fn insert_spec(entries: Entries, key: Seq<char>, value: Seq<char>) -> Entries {
    match find_key(entries, key) {
        Some(i) => entries.update(i, (key, value)),
        None => entries.push((key, value)),
    }
}

/// Remove the binding of `key`, if any.
pub open spec fn remove_spec(entries: Entries, key: Seq<char>) -> Entries {
    match find_key(entries, key) {
        Some(i) => entries.remove(i),
        None => entries,
    }
}

/// No two entries share a key.
pub open spec fn unique_keys(entries: Entries) -> bool {
    forall|i: int, j: int| 0 <= i < j < entries.len() ==> entries[i].0 != entries[j].0
}

/// What `find_key` finds is the first entry with the key.
pub proof fn lemma_find_key_props(entries: Entries, key: Seq<char>)
    ensures
        match find_key(entries, key) {
            Some(i) => 0 <= i < entries.len() && entries[i].0 == key && forall|j: int|
                0 <= j < i ==> entries[j].0 != key,
            None => forall|j: int| 0 <= j < entries.len() ==> entries[j].0 != key,
        },
    decreases entries.len(),
{
    if entries.len() > 0 && entries[0].0 != key {
        let t = entries.skip(1);
        lemma_find_key_props(t, key);
        assert(forall|j: int| 0 <= j < t.len() ==> #[trigger] t[j] == entries[j + 1]);
        match find_key(t, key) {
            Some(i) => {
                assert(entries[i + 1] == t[i]);
                assert forall|j: int| 0 <= j < i + 1 implies entries[j].0 != key by {
                    if j > 0 {
                        assert(t[j - 1] == entries[j]);
                    }
                }
            },
            None => {
                assert forall|j: int| 0 <= j < entries.len() implies entries[j].0 != key by {
                    if j > 0 {
                        assert(t[j - 1] == entries[j]);
                    }
                }
            },
        }
    }
}

/// The first matching index determines `find_key`.
pub proof fn lemma_find_key_is(entries: Entries, key: Seq<char>, i: int)
    requires
        0 <= i < entries.len(),
        entries[i].0 == key,
        forall|j: int| 0 <= j < i ==> entries[j].0 != key,
    ensures
        find_key(entries, key) == Some(i),
    decreases entries.len(),
{
    if i > 0 {
        let t = entries.skip(1);
        assert(forall|j: int| 0 <= j < t.len() ==> #[trigger] t[j] == entries[j + 1]);
        lemma_find_key_is(t, key, i - 1);
    }
}

/// When no entry matches, `find_key` finds nothing.
pub proof fn lemma_find_key_none(entries: Entries, key: Seq<char>)
    requires
        forall|j: int| 0 <= j < entries.len() ==> entries[j].0 != key,
    ensures
        find_key(entries, key) == None::<int>,
    decreases entries.len(),
{
    if entries.len() > 0 {
        let t = entries.skip(1);
        assert(forall|j: int| 0 <= j < t.len() ==> #[trigger] t[j] == entries[j + 1]);
        lemma_find_key_none(t, key);
    }
}

/// The variable store of one program run: a list of bindings from
/// variable name to text value, with at most one entry per name.
#[derive(Debug)]
pub struct VariableStore {
    entries: Vec<(String, String)>,
}

impl View for VariableStore {
    type V = Entries;

    closed spec fn view(&self) -> Entries {
        Seq::new(self.entries@.len(), |i: int| (self.entries@[i].0@, self.entries@[i].1@))
    }
}

impl VariableStore {
    /// The representation invariant: no two entries share a key.
    pub open spec fn wf(&self) -> bool {
        unique_keys(self@)
    }

    /// An empty store.
    pub fn new() -> (r: VariableStore)
        ensures
            r@ == Seq::<(Seq<char>, Seq<char>)>::empty(),
            r.wf(),
    {
        let r = VariableStore { entries: Vec::new() };
        proof {
            assert(r@ =~= Seq::<(Seq<char>, Seq<char>)>::empty());
        }
        r
    }

    /// Number of bindings.
    pub fn count(&self) -> (r: usize)
        ensures
            r == self@.len(),
    {
        self.entries.len()
    }

    /// The name of the binding at position `i`.
    pub fn key_at(&self, i: usize) -> (r: &String)
        requires
            i < self@.len(),
        ensures
            r@ == self@[i as int].0,
    {
        &self.entries[i].0
    }

    /// The value of the binding at position `i`.
    pub fn value_at(&self, i: usize) -> (r: &String)
        requires
            i < self@.len(),
        ensures
            r@ == self@[i as int].1,
    {
        &self.entries[i].1
    }

    /// Position of the first binding of `name`, if any.
    fn position(&self, name: &str) -> (r: Option<usize>)
        ensures
            match r {
                Some(i) => i < self@.len() && find_key(self@, name@) == Some(i as int),
                None => find_key(self@, name@) == None::<int>,
            },
    {
        let mut i: usize = 0;
        let n = self.entries.len();
        while i < n
            invariant
                i <= n,
                n == self@.len(),
                forall|j: int| 0 <= j < i ==> self@[j].0 != name@,
            decreases n - i,
        {
            if str_eq(self.entries[i].0.as_str(), name) {
                proof {
                    lemma_find_key_is(self@, name@, i as int);
                }
                return Some(i);
            }
            i += 1;
        }
        proof {
            lemma_find_key_none(self@, name@);
        }
        None
    }

    /// The value bound to `name`, if any.
    pub fn get(&self, name: &str) -> (r: Option<&String>)
        ensures
            match r {
                Some(v) => lookup_spec(self@, name@) == Some(v@),
                None => lookup_spec(self@, name@) == None::<Seq<char>>,
            },
    {
        match self.position(name) {
            Some(i) => Some(&self.entries[i].1),
            None => None,
        }
    }

    /// Bind `name` to `value`, replacing any existing binding in place.
    pub fn set(&mut self, name: String, value: String)
        ensures
            final(self)@ == insert_spec(old(self)@, name@, value@),
            old(self).wf() ==> final(self).wf(),
    {
        let ghost entries0 = self@;
        match self.position(name.as_str()) {
            Some(i) => {
                proof {
                    lemma_find_key_props(entries0, name@);
                }
                self.entries[i] = (name, value);
                proof {
                    assert(self@ =~= entries0.update(i as int, (name@, value@)));
                    if unique_keys(entries0) {
                        assert forall|p: int, q: int|
                            0 <= p < q < self@.len() implies self@[p].0 != self@[q].0 by {
                            assert(entries0[p].0 != entries0[q].0);
                        }
                    }
                }
            },
            None => {
                proof {
                    lemma_find_key_props(entries0, name@);
                }
                self.entries.push((name, value));
                proof {
                    assert(self@ =~= entries0.push((name@, value@)));
                    if unique_keys(entries0) {
                        assert forall|p: int, q: int|
                            0 <= p < q < self@.len() implies self@[p].0 != self@[q].0 by {
                            if q < entries0.len() {
                                assert(entries0[p].0 != entries0[q].0);
                            } else {
                                assert(self@[q].0 == name@);
                                assert(entries0[p].0 != name@);
                            }
                        }
                    }
                }
            },
        }
    }

    /// Drop the binding of `name`; removing an absent name changes nothing.
    pub fn remove(&mut self, name: &str)
        ensures
            final(self)@ == remove_spec(old(self)@, name@),
            old(self).wf() ==> final(self).wf(),
    {
        let ghost entries0 = self@;
        match self.position(name) {
            Some(i) => {
                self.entries.remove(i);
                proof {
                    assert(self@ =~= entries0.remove(i as int));
                    if unique_keys(entries0) {
                        assert forall|p: int, q: int|
                            0 <= p < q < self@.len() implies self@[p].0 != self@[q].0 by {
                            let p0 = if p < i {
                                p
                            } else {
                                p + 1
                            };
                            let q0 = if q < i {
                                q
                            } else {
                                q + 1
                            };
                            assert(self@[p] == entries0[p0] && self@[q] == entries0[q0]);
                            assert(entries0[p0].0 != entries0[q0].0);
                        }
                    }
                }
            },
            None => {},
        }
    }

    /// A copy of all bindings, in store order.
    pub fn snapshot(&self) -> (r: Vec<(String, String)>)
        ensures
            r@.len() == self@.len(),
            forall|i: int|
                0 <= i < r@.len() ==> (#[trigger] r@[i]).0@ == self@[i].0 && r@[i].1@
                    == self@[i].1,
    {
        let mut out: Vec<(String, String)> = Vec::new();
        let mut i: usize = 0;
        let n = self.entries.len();
        while i < n
            invariant
                i <= n,
                n == self@.len(),
                out@.len() == i,
                forall|j: int|
                    0 <= j < i ==> (#[trigger] out@[j]).0@ == self@[j].0 && out@[j].1@
                        == self@[j].1,
            decreases n - i,
        {
            let k = self.entries[i].0.clone();
            let v = self.entries[i].1.clone();
            out.push((k, v));
            i += 1;
        }
        out
    }
}

} // verus!
