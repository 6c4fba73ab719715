//! The state store: a map from keys to structured values.
//!
//! The store keeps its entries in the order in which their keys first came,
//! and no key twice. Its view is the map that the entries spell out.

use vstd::prelude::*;
use crate::json::{json_as_bool, value_as_bool, value_clone};
use crate::text::same_text;

verus! {

/// One key of the store with its value.
pub struct StateEntry {
    key: String,
    value: serde_json::Value,
}

/// A map from keys to structured values.
pub struct StateStore {
    entries: Vec<StateEntry>,
}

/// Whether `i` is a place in `entries` that holds `key`.
spec fn holds_key(entries: Seq<StateEntry>, key: Seq<char>, i: int) -> bool {
    0 <= i < entries.len() && entries[i].key@ == key
}

/// Whether no key stands at two places.
spec fn keys_distinct(entries: Seq<StateEntry>) -> bool {
    forall|i: int, j: int|
        0 <= i < entries.len() && 0 <= j < entries.len() && entries[i].key@ == entries[j].key@
            ==> i == j
}

/// The map that a sequence of entries spells out.
spec fn entries_map(entries: Seq<StateEntry>) -> Map<Seq<char>, serde_json::Value> {
    Map::new(
        |k: Seq<char>| exists|i: int| holds_key(entries, k, i),
        |k: Seq<char>| entries[choose|i: int| holds_key(entries, k, i)].value,
    )
}

impl View for StateStore {
    type V = Map<Seq<char>, serde_json::Value>;

    closed spec fn view(&self) -> Map<Seq<char>, serde_json::Value> {
        entries_map(self.entries@)
    }
}

impl StateStore {
    #[verifier::type_invariant]
    spec fn well_formed(self) -> bool {
        keys_distinct(self.entries@)
    }

    /// The place of `key` among the entries, if it has one.
    fn position(&self, key: &str) -> (r: Option<usize>)
        ensures
            match r {
                Some(i) => holds_key(self.entries@, key@, i as int),
                None => forall|i: int| !holds_key(self.entries@, key@, i),
            },
    {
        let wanted = key.to_owned();
        let mut i: usize = 0;
        while i < self.entries.len()
            invariant
                i <= self.entries.len(),
                wanted@ == key@,
                forall|j: int| 0 <= j < i ==> !holds_key(self.entries@, key@, j),
            decreases self.entries.len() - i,
        {
            if same_text(&self.entries[i].key, &wanted) {
                return Some(i);
            }
            i = i + 1;
        }
        None
    }

    /// Moves the entries out and leaves the store empty.
    fn take_entries(&mut self) -> (r: Vec<StateEntry>)
        ensures
            r@ == old(self).entries@,
            final(self).entries@.len() == 0,
    {
        let mut taken = StateStore { entries: Vec::new() };
        core::mem::swap(self, &mut taken);
        let StateStore { entries } = taken;
        entries
    }

    /// An empty store.
    pub fn new() -> (r: StateStore)
        ensures
            r@ == Map::<Seq<char>, serde_json::Value>::empty(),
    {
        let r = StateStore { entries: Vec::new() };
        assert(r@ =~= Map::<Seq<char>, serde_json::Value>::empty());
        r
    }

    /// The number of keys.
    pub fn len(&self) -> (r: usize)
        ensures
            r == self@.len(),
            self@.dom().finite(),
    {
        proof {
            use_type_invariant(self);
            lemma_entries_map_len(self.entries@);
        }
        self.entries.len()
    }

    /// Whether the store holds `key`.
    pub fn contains_key(&self, key: &str) -> (r: bool)
        ensures
            r == self@.contains_key(key@),
    {
        self.position(key).is_some()
    }

    /// A copy of the value under `key`, if the store holds the key.
    pub fn get(&self, key: &str) -> (r: Option<serde_json::Value>)
        ensures
            r == (if self@.contains_key(key@) {
                Some(self@[key@])
            } else {
                None
            }),
    {
        proof {
            use_type_invariant(self);
        }
        match self.position(key) {
            Some(i) => Some(value_clone(&self.entries[i].value)),
            None => None,
        }
    }

    /// The boolean under `key`: `None` where the key is absent or its value
    /// is no boolean.
    pub fn get_bool(&self, key: &str) -> (r: Option<bool>)
        ensures
            r == (if self@.contains_key(key@) {
                json_as_bool(self@[key@])
            } else {
                None
            }),
    {
        proof {
            use_type_invariant(self);
        }
        match self.position(key) {
            Some(i) => value_as_bool(&self.entries[i].value),
            None => None,
        }
    }

    /// Puts `value` under `key`, in place of what the key held before.
    pub fn set(&mut self, key: String, value: serde_json::Value)
        ensures
            final(self)@ == old(self)@.insert(key@, value),
    {
        proof {
            use_type_invariant(&*self);
        }
        let ghost before = self.entries@;
        let found = self.position(key.as_str());
        let mut entries = self.take_entries();
        match found {
            Some(i) => {
                let entry = StateEntry { key, value };
                entries.set(i, entry);
                proof {
                    let after = entries@;
                    assert forall|k: Seq<char>, j: int| holds_key(after, k, j) == holds_key(
                        before,
                        k,
                        j,
                    ) by {}
                    assert forall|a: int, b: int|
                        0 <= a < after.len() && 0 <= b < after.len() && after[a].key@
                            == after[b].key@ implies a == b by {
                        assert(holds_key(before, after[a].key@, a));
                        assert(holds_key(before, after[a].key@, b));
                    }
                    assert(entries_map(after) =~= entries_map(before).insert(key@, value));
                }
            },
            None => {
                let entry = StateEntry { key, value };
                entries.push(entry);
                proof {
                    let after = entries@;
                    let last = before.len() as int;
                    assert(holds_key(after, key@, last));
                    assert forall|k: Seq<char>, j: int| holds_key(before, k, j) implies holds_key(
                        after,
                        k,
                        j,
                    ) by {}
                    assert forall|k: Seq<char>, j: int| holds_key(after, k, j) && j
                        != last implies holds_key(before, k, j) by {}
                    assert forall|a: int, b: int|
                        0 <= a < after.len() && 0 <= b < after.len() && after[a].key@
                            == after[b].key@ implies a == b by {
                        if a != last {
                            assert(holds_key(before, after[a].key@, a));
                        }
                        if b != last {
                            assert(holds_key(before, after[b].key@, b));
                        }
                    }
                    assert(entries_map(after) =~= entries_map(before).insert(key@, value));
                }
            },
        }
        *self = StateStore { entries };
    }

    /// Removes `key`, if the store holds it.
    pub fn remove(&mut self, key: &str)
        ensures
            final(self)@ == old(self)@.remove(key@),
    {
        proof {
            use_type_invariant(&*self);
        }
        let ghost before = self.entries@;
        let found = self.position(key);
        let mut entries = self.take_entries();
        match found {
            Some(i) => {
                entries.remove(i);
                proof {
                    let after = entries@;
                    assert forall|a: int| 0 <= a < after.len() implies after[a] == before[if a < i {
                        a
                    } else {
                        a + 1
                    }] by {}
                    assert forall|a: int, b: int|
                        0 <= a < after.len() && 0 <= b < after.len() && after[a].key@
                            == after[b].key@ implies a == b by {
                        let a0 = if a < i {
                            a
                        } else {
                            a + 1
                        };
                        let b0 = if b < i {
                            b
                        } else {
                            b + 1
                        };
                        assert(before[a0].key@ == before[b0].key@);
                    }
                    assert forall|k: Seq<char>| #[trigger]
                        entries_map(after).dom().contains(k) == entries_map(before).remove(
                            key@,
                        ).dom().contains(k) by {
                        if entries_map(after).dom().contains(k) {
                            let a = choose|a: int| holds_key(after, k, a);
                            let a0 = if a < i {
                                a
                            } else {
                                a + 1
                            };
                            assert(holds_key(before, k, a0));
                            assert(a0 != i);
                        }
                        if entries_map(before).remove(key@).dom().contains(k) {
                            let b = choose|b: int| holds_key(before, k, b);
                            assert(b != i);
                            let b1 = if b < i {
                                b
                            } else {
                                b - 1
                            };
                            assert(holds_key(after, k, b1));
                        }
                    }
                    assert forall|k: Seq<char>| #[trigger]
                        entries_map(after).dom().contains(k) implies entries_map(after)[k]
                        == entries_map(before).remove(key@)[k] by {
                        let a = choose|a: int| holds_key(after, k, a);
                        let a0 = if a < i {
                            a
                        } else {
                            a + 1
                        };
                        assert(holds_key(before, k, a0));
                        let b = choose|b: int| holds_key(before, k, b);
                        assert(b == a0);
                    }
                    assert(entries_map(after) =~= entries_map(before).remove(key@));
                }
            },
            None => {
                proof {
                    assert(entries_map(before) =~= entries_map(before).remove(key@));
                }
            },
        }
        *self = StateStore { entries };
    }

    /// Removes every key.
    pub fn clear(&mut self)
        ensures
            final(self)@ == Map::<Seq<char>, serde_json::Value>::empty(),
    {
        *self = StateStore { entries: Vec::new() };
        assert(self@ =~= Map::<Seq<char>, serde_json::Value>::empty());
    }
}

impl Clone for StateStore {
    /// A snapshot: a store with the same keys and values, which later changes
    /// to this one do not reach.
    fn clone(&self) -> (r: StateStore)
        ensures
            r@ == self@,
    {
        proof {
            use_type_invariant(self);
        }
        let mut entries: Vec<StateEntry> = Vec::new();
        let mut i: usize = 0;
        while i < self.entries.len()
            invariant
                i <= self.entries.len(),
                entries.len() == i,
                forall|j: int|
                    0 <= j < i ==> entries@[j].key@ == self.entries@[j].key@ && entries@[j].value
                        == self.entries@[j].value,
            decreases self.entries.len() - i,
        {
            let entry = StateEntry {
                key: self.entries[i].key.clone(),
                value: value_clone(&self.entries[i].value),
            };
            entries.push(entry);
            i = i + 1;
        }
        proof {
            let a = entries@;
            let b = self.entries@;
            assert forall|k: Seq<char>, j: int| holds_key(a, k, j) == holds_key(b, k, j) by {}
            assert(entries_map(a) =~= entries_map(b));
        }
        StateStore { entries }
    }
}

/// With distinct keys, the map has as many keys as there are entries.
proof fn lemma_entries_map_len(entries: Seq<StateEntry>)
    requires
        keys_distinct(entries),
    ensures
        entries_map(entries).dom().finite(),
        entries_map(entries).len() == entries.len(),
    decreases entries.len(),
{
    if entries.len() == 0 {
        assert(entries_map(entries).dom() =~= Set::<Seq<char>>::empty());
    } else {
        let rest = entries.drop_last();
        let last = entries.last();
        lemma_entries_map_len(rest);
        assert forall|k: Seq<char>, j: int| holds_key(rest, k, j) implies holds_key(
            entries,
            k,
            j,
        ) by {}
        assert(holds_key(entries, last.key@, entries.len() - 1));
        assert forall|k: Seq<char>|
            entries_map(entries).dom().contains(k) == entries_map(rest).dom().insert(
                last.key@,
            ).contains(k) by {
            if entries_map(entries).dom().contains(k) {
                let j = choose|j: int| holds_key(entries, k, j);
                if j != entries.len() - 1 {
                    assert(holds_key(rest, k, j));
                }
            }
            if entries_map(rest).dom().contains(k) {
                let j = choose|j: int| holds_key(rest, k, j);
                assert(holds_key(entries, k, j));
            }
        }
        assert(entries_map(entries).dom() =~= entries_map(rest).dom().insert(last.key@));
        assert(!entries_map(rest).dom().contains(last.key@)) by {
            if entries_map(rest).dom().contains(last.key@) {
                let j = choose|j: int| holds_key(rest, last.key@, j);
                assert(holds_key(entries, last.key@, j));
            }
        }
    }
}

} // verus!
