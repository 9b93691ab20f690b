//! A bounded, insertion-ordered map from integer identifiers to values.
//!
//! Every resource store on the audio side (sounds, arrangements, parameters,
//! tracks, groups, metronomes, sequences, instances) is one of these: a
//! vector of key-value pairs with unique keys, holding at most its fixed
//! capacity, preserving insertion order.  Capacity is fixed at construction,
//! matching the engine's no-allocation-per-frame policy.

use vstd::prelude::*;

verus! {

/// The keys of a sequence of entries, in order.
pub open spec fn entry_keys<V>(s: Seq<(u64, V)>) -> Seq<u64> {
    s.map_values(|p: (u64, V)| p.0)
}

/// Whether some entry carries the key `id`.
pub open spec fn has_key<V>(s: Seq<(u64, V)>, id: u64) -> bool {
    exists|i: int| 0 <= i < s.len() && s[i].0 == id
}

/// Whether all entry keys are distinct.
pub open spec fn keys_unique<V>(s: Seq<(u64, V)>) -> bool {
    forall|i: int, j: int| 0 <= i < j < s.len() ==> s[i].0 != s[j].0
}

/// The position of the entry carrying `id`, if present.
pub open spec fn key_idx<V>(s: Seq<(u64, V)>, id: u64) -> Option<int> {
    if has_key(s, id) {
        Some(choose|i: int| 0 <= i < s.len() && s[i].0 == id)
    } else {
        None
    }
}

/// With unique keys, any position carrying `id` is the chosen one.
pub proof fn lemma_key_idx_unique<V>(s: Seq<(u64, V)>, id: u64, i: int)
    requires
        keys_unique(s),
        0 <= i < s.len(),
        s[i].0 == id,
    ensures
        key_idx(s, id) == Some(i),
{
    let j = choose|j: int| 0 <= j < s.len() && s[j].0 == id;
    if i != j {
        if i < j {
            assert(s[i].0 != s[j].0);
        } else {
            assert(s[j].0 != s[i].0);
        }
    }
}

/// A bounded, insertion-ordered map from `u64` identifiers to values.
pub struct Table<V> {
    entries: Vec<(u64, V)>,
    cap: usize,
}

impl<V> Table<V> {
    /// The entries, in insertion order.
    pub closed spec fn view(&self) -> Seq<(u64, V)> {
        self.entries@
    }

    /// The fixed capacity.
    pub closed spec fn spec_cap(&self) -> int {
        self.cap as int
    }

    /// Entries fit the capacity and keys are unique.
    pub open spec fn wf(&self) -> bool {
        &&& self.view().len() <= self.spec_cap()
        &&& keys_unique(self.view())
    }

    /// An empty table with the given capacity.
    pub fn new(cap: usize) -> (r: Table<V>)
        ensures
            r.view() == Seq::<(u64, V)>::empty(),
            r.spec_cap() == cap,
            r.wf(),
    {
        let r = Table { entries: Vec::new(), cap };
        proof {
            assert(r.view() =~= Seq::<(u64, V)>::empty());
        }
        r
    }

    /// How many entries the table holds.
    pub fn len(&self) -> (r: usize)
        ensures
            r == self.view().len(),
    {
        self.entries.len()
    }

    /// The fixed capacity.
    pub fn capacity(&self) -> (r: usize)
        ensures
            r == self.spec_cap(),
    {
        self.cap
    }

    /// The index of the entry with key `id`, if the key is present.
    pub fn idx_of(&self, id: u64) -> (r: Option<usize>)
        ensures
            match r {
                Some(i) => i < self.view().len() && self.view()[i as int].0 == id,
                None => !has_key(self.view(), id),
            },
    {
        let n = self.entries.len();
        let mut i: usize = 0;
        while i < n
            invariant
                i <= n,
                n == self.view().len(),
                forall|j: int| 0 <= j < i ==> self.view()[j].0 != id,
            decreases n - i,
        {
            if self.entries[i].0 == id {
                return Some(i);
            }
            i = i + 1;
        }
        None
    }

    /// Whether an entry with key `id` exists.
    pub fn contains(&self, id: u64) -> (r: bool)
        ensures
            r == has_key(self.view(), id),
    {
        match self.idx_of(id) {
            Some(_) => true,
            None => false,
        }
    }

    /// A reference to the value carrying `id`, if present.
    pub fn get(&self, id: u64) -> (r: Option<&V>)
        requires
            self.wf(),
        ensures
            match key_idx(self.view(), id) {
                Some(i) => r == Some(&self.view()[i].1),
                None => r is None,
            },
    {
        match self.idx_of(id) {
            Some(i) => {
                proof {
                    lemma_key_idx_unique(self.view(), id, i as int);
                }
                Some(self.value_at(i))
            },
            None => None,
        }
    }

    /// The key of the entry at position `i`.
    pub fn key_at(&self, i: usize) -> (r: u64)
        requires
            i < self.view().len(),
        ensures
            r == self.view()[i as int].0,
    {
        self.entries[i].0
    }

    /// A reference to the value of the entry at position `i`.
    pub fn value_at(&self, i: usize) -> (r: &V)
        requires
            i < self.view().len(),
        ensures
            *r == self.view()[i as int].1,
    {
        &self.entries[i].1
    }

    /// A mutable reference to the value of the entry at position `i`;
    /// the key at `i` is unchanged.
    pub fn value_at_mut(&mut self, i: usize) -> (r: &mut V)
        requires
            i < old(self).view().len(),
        ensures
            *r == old(self).view()[i as int].1,
            final(self).view() == old(self).view().update(
                i as int,
                (old(self).view()[i as int].0, *final(r)),
            ),
            final(self).spec_cap() == old(self).spec_cap(),
    {
        let ghost k = self.entries@[i as int].0;
        let entry = &mut self.entries[i];
        proof {
            assert(after_borrow(self.entries)@ == old(self).view().update(
                i as int,
                *final(entry),
            ));
        }
        &mut entry.1
    }

    /// Overwrite the value at position `i`, keeping its key.
    pub fn set_value_at(&mut self, i: usize, v: V)
        requires
            i < old(self).view().len(),
        ensures
            final(self).view() == old(self).view().update(
                i as int,
                (old(self).view()[i as int].0, v),
            ),
            final(self).spec_cap() == old(self).spec_cap(),
    {
        let slot = self.value_at_mut(i);
        *slot = v;
    }

    /// Append a new entry; the key must be fresh and the table not full.
    pub fn push(&mut self, id: u64, v: V)
        requires
            !has_key(old(self).view(), id),
            old(self).view().len() < old(self).spec_cap(),
        ensures
            final(self).view() == old(self).view().push((id, v)),
            final(self).spec_cap() == old(self).spec_cap(),
            old(self).wf() ==> final(self).wf(),
    {
        self.entries.push((id, v));
        proof {
            if old(self).wf() {
                assert forall|i: int, j: int|
                    0 <= i < j < self.view().len() implies self.view()[i].0 != self.view()[j].0 by {
                    if j == self.view().len() - 1 {
                        assert(!has_key(old(self).view(), id));
                        assert(old(self).view()[i].0 != id);
                    }
                }
            }
        }
    }

    /// Take all entries out, leaving the table empty.
    pub fn take_entries(&mut self) -> (r: Vec<(u64, V)>)
        ensures
            r@ == old(self).view(),
            final(self).view() == Seq::<(u64, V)>::empty(),
            final(self).spec_cap() == old(self).spec_cap(),
            final(self).wf(),
    {
        let mut out: Vec<(u64, V)> = Vec::new();
        core::mem::swap(&mut self.entries, &mut out);
        proof {
            assert(self.view() =~= Seq::<(u64, V)>::empty());
        }
        out
    }

    /// Put a rebuilt entry list back; keys must be unique and fit.
    pub fn replace_entries(&mut self, entries: Vec<(u64, V)>)
        requires
            keys_unique(entries@),
            entries@.len() <= old(self).spec_cap(),
        ensures
            final(self).view() == entries@,
            final(self).spec_cap() == old(self).spec_cap(),
            final(self).wf(),
    {
        self.entries = entries;
    }

    /// Remove the entry at position `i`, shifting later entries down.
    pub fn remove_at(&mut self, i: usize) -> (r: (u64, V))
        requires
            i < old(self).view().len(),
        ensures
            r == old(self).view()[i as int],
            final(self).view() == old(self).view().remove(i as int),
            final(self).spec_cap() == old(self).spec_cap(),
            old(self).wf() ==> final(self).wf(),
    {
        let r = self.entries.remove(i);
        proof {
            if old(self).wf() {
                assert(keys_unique(self.view())) by {
                    assert forall|a: int, b: int|
                        0 <= a < b < self.view().len() implies self.view()[a].0
                        != self.view()[b].0 by {
                        let oa = if a < i { a } else { a + 1 };
                        let ob = if b < i { b } else { b + 1 };
                        assert(self.view()[a] == old(self).view()[oa]);
                        assert(self.view()[b] == old(self).view()[ob]);
                    }
                }
            }
        }
        r
    }
}

} // verus!
