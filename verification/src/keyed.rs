//! A map from text keys to values, kept as a list of entries without
//! duplicate keys.
use vstd::prelude::*;
use crate::text::str_equal;

verus! {

/// No two entries share a key.
pub open spec fn keys_unique<V>(s: Seq<(String, V)>) -> bool {
    forall|i: int, j: int| 0 <= i < s.len() && 0 <= j < s.len() && i != j ==> (#[trigger] s[i]).0@
        != (#[trigger] s[j]).0@
}

/// Some entry has the key.
pub open spec fn has_key<V>(s: Seq<(String, V)>, k: Seq<char>) -> bool {
    exists|i: int| 0 <= i < s.len() && (#[trigger] s[i]).0@ == k
}

/// The map that the entries describe.
pub open spec fn entries_map<V>(s: Seq<(String, V)>) -> Map<Seq<char>, V> {
    Map::new(
        |k: Seq<char>| has_key(s, k),
        |k: Seq<char>| s[choose|i: int| 0 <= i < s.len() && (#[trigger] s[i]).0@ == k].1,
    )
}

/// The value of an entry is the map's value at its key.
pub proof fn lemma_entry_value<V>(s: Seq<(String, V)>, i: int)
    requires
        keys_unique(s),
        0 <= i < s.len(),
    ensures
        entries_map(s).contains_key(s[i].0@),
        entries_map(s)[s[i].0@] == s[i].1,
{
    assert(has_key(s, s[i].0@));
    let j = choose|j: int| 0 <= j < s.len() && (#[trigger] s[j]).0@ == s[i].0@;
    assert(j == i);
}

/// A map from text keys to values.
pub struct KeyedList<V> {
    entries: Vec<(String, V)>,
}

impl<V> View for KeyedList<V> {
    type V = Map<Seq<char>, V>;

    closed spec fn view(&self) -> Map<Seq<char>, V> {
        entries_map(self.entries@)
    }
}

impl<V> KeyedList<V> {
    #[verifier::type_invariant]
    spec fn well_formed(self) -> bool {
        keys_unique(self.entries@)
    }

    /// The entries, in their order.
    pub closed spec fn entry_seq(&self) -> Seq<(String, V)> {
        self.entries@
    }

    /// The empty map.
    pub fn new() -> (r: KeyedList<V>)
        ensures
            r@ == Map::<Seq<char>, V>::empty(),
    {
        let r = KeyedList { entries: Vec::new() };
        assert(r@ =~= Map::<Seq<char>, V>::empty());
        r
    }

    /// The number of entries.
    pub fn len(&self) -> (r: usize)
        ensures
            r == self.entry_seq().len(),
    {
        self.entries.len()
    }

    /// The value of the entry at a position.
    pub fn value_at(&self, i: usize) -> (r: &V)
        requires
            i < self.entry_seq().len(),
        ensures
            *r == self.entry_seq()[i as int].1,
    {
        &self.entries[i].1
    }

    fn position(&self, key: &str) -> (r: Option<usize>)
        ensures
            match r {
                Some(i) => i < self.entries@.len() && self.entries@[i as int].0@ == key@,
                None => !has_key(self.entries@, key@),
            },
    {
        let mut i: usize = 0;
        while i < self.entries.len()
            invariant
                i <= self.entries@.len(),
                forall|j: int| 0 <= j < i ==> (#[trigger] self.entries@[j]).0@ != key@,
            decreases self.entries@.len() - i,
        {
            if str_equal(self.entries[i].0.as_str(), key) {
                return Some(i);
            }
            i = i + 1;
        }
        None
    }

    /// The value at a key, if any.
    pub fn get(&self, key: &str) -> (r: Option<&V>)
        ensures
            match r {
                Some(v) => self@.contains_key(key@) && *v == self@[key@],
                None => !self@.contains_key(key@),
            },
    {
        proof {
            use_type_invariant(self);
        }
        match self.position(key) {
            Some(i) => {
                proof {
                    lemma_entry_value(self.entries@, i as int);
                }
                Some(&self.entries[i].1)
            },
            None => None,
        }
    }

    /// Sets the value at a key.
    pub fn insert(&mut self, key: String, value: V)
        ensures
            final(self)@ == old(self)@.insert(key@, value),
    {
        proof {
            use_type_invariant(&*self);
        }
        let ghost before = self.entries@;
        let ghost k = key@;
        match self.position(key.as_str()) {
            Some(i) => {
                let mut entries: Vec<(String, V)> = Vec::new();
                std::mem::swap(&mut entries, &mut self.entries);
                entries.set(i, (key, value));
                let ghost after = entries@;
                proof {
                    assert(after == before.update(i as int, (after[i as int].0, value)));
                    assert(keys_unique(after)) by {
                        assert forall|a: int, b: int|
                            0 <= a < after.len() && 0 <= b < after.len() && a != b implies (
                            #[trigger] after[a]).0@ != (#[trigger] after[b]).0@ by {
                            if a != i && b != i {
                                assert(after[a] == before[a] && after[b] == before[b]);
                            } else if a == i {
                                assert(after[b] == before[b]);
                            } else {
                                assert(after[a] == before[a]);
                            }
                        }
                    }
                    assert(entries_map(after) =~= entries_map(before).insert(k, value)) by {
                        assert forall|q: Seq<char>| #[trigger]
                            entries_map(after).contains_key(q) == entries_map(before).insert(
                                k,
                                value,
                            ).contains_key(q) by {
                            if has_key(after, q) {
                                let j = choose|j: int| 0 <= j < after.len() && (#[trigger] after[j]).0@ == q;
                                if j != i {
                                    assert(before[j] == after[j]);
                                }
                            }
                            if has_key(before, q) {
                                let j = choose|j: int| 0 <= j < before.len() && (#[trigger] before[j]).0@ == q;
                                if j != i {
                                    assert(before[j] == after[j]);
                                }
                            }
                        }
                        assert forall|q: Seq<char>|
                            #[trigger] entries_map(after).contains_key(q) implies entries_map(
                            after,
                        )[q] == entries_map(before).insert(k, value)[q] by {
                            let j = choose|j: int| 0 <= j < after.len() && (#[trigger] after[j]).0@ == q;
                            lemma_entry_value(after, j);
                            if j != i {
                                assert(before[j] == after[j]);
                                lemma_entry_value(before, j);
                            }
                        }
                    }
                }
                self.entries = entries;
            },
            None => {
                let mut entries: Vec<(String, V)> = Vec::new();
                std::mem::swap(&mut entries, &mut self.entries);
                entries.push((key, value));
                let ghost after = entries@;
                proof {
                    assert(keys_unique(after)) by {
                        assert forall|a: int, b: int|
                            0 <= a < after.len() && 0 <= b < after.len() && a != b implies (
                            #[trigger] after[a]).0@ != (#[trigger] after[b]).0@ by {
                            if a < before.len() && b < before.len() {
                                assert(after[a] == before[a] && after[b] == before[b]);
                            } else if a < before.len() {
                                assert(after[a] == before[a]);
                            } else {
                                assert(after[b] == before[b]);
                            }
                        }
                    }
                    assert(entries_map(after) =~= entries_map(before).insert(k, value)) by {
                        assert forall|q: Seq<char>| #[trigger]
                            entries_map(after).contains_key(q) == entries_map(before).insert(
                                k,
                                value,
                            ).contains_key(q) by {
                            if has_key(after, q) {
                                let j = choose|j: int| 0 <= j < after.len() && (#[trigger] after[j]).0@ == q;
                                if j < before.len() {
                                    assert(before[j] == after[j]);
                                }
                            }
                            if has_key(before, q) {
                                let j = choose|j: int| 0 <= j < before.len() && (#[trigger] before[j]).0@ == q;
                                assert(before[j] == after[j]);
                            }
                            if q == k {
                                assert(after[before.len() as int].0@ == k);
                            }
                        }
                        assert forall|q: Seq<char>|
                            #[trigger] entries_map(after).contains_key(q) implies entries_map(
                            after,
                        )[q] == entries_map(before).insert(k, value)[q] by {
                            let j = choose|j: int| 0 <= j < after.len() && (#[trigger] after[j]).0@ == q;
                            lemma_entry_value(after, j);
                            if j < before.len() {
                                assert(before[j] == after[j]);
                                lemma_entry_value(before, j);
                            }
                        }
                    }
                }
                self.entries = entries;
            },
        }
    }

    /// Removes the entry at a key, giving back its value.
    pub fn remove(&mut self, key: &str) -> (r: Option<V>)
        ensures
            final(self)@ == old(self)@.remove(key@),
            match r {
                Some(v) => old(self)@.contains_key(key@) && v == old(self)@[key@],
                None => !old(self)@.contains_key(key@),
            },
    {
        proof {
            use_type_invariant(&*self);
        }
        let ghost before = self.entries@;
        match self.position(key) {
            Some(i) => {
                let mut entries: Vec<(String, V)> = Vec::new();
                std::mem::swap(&mut entries, &mut self.entries);
                let (_, v) = entries.remove(i);
                let ghost after = entries@;
                proof {
                    lemma_entry_value(before, i as int);
                    assert(after == before.remove(i as int));
                    assert(keys_unique(after)) by {
                        assert forall|a: int, b: int|
                            0 <= a < after.len() && 0 <= b < after.len() && a != b implies (
                            #[trigger] after[a]).0@ != (#[trigger] after[b]).0@ by {
                            let a2 = if a < i {
                                a
                            } else {
                                a + 1
                            };
                            let b2 = if b < i {
                                b
                            } else {
                                b + 1
                            };
                            assert(after[a] == before[a2] && after[b] == before[b2]);
                        }
                    }
                    assert(entries_map(after) =~= entries_map(before).remove(key@)) by {
                        assert forall|q: Seq<char>| #[trigger]
                            entries_map(after).contains_key(q) == entries_map(before).remove(
                                key@,
                            ).contains_key(q) by {
                            if has_key(after, q) {
                                let j = choose|j: int| 0 <= j < after.len() && (#[trigger] after[j]).0@ == q;
                                let j2 = if j < i {
                                    j
                                } else {
                                    j + 1
                                };
                                assert(after[j] == before[j2]);
                            }
                            if has_key(before, q) && q != key@ {
                                let j = choose|j: int| 0 <= j < before.len() && (#[trigger] before[j]).0@ == q;
                                if j < i {
                                    assert(after[j] == before[j]);
                                } else {
                                    assert(j != i);
                                    assert(after[j - 1] == before[j]);
                                }
                            }
                        }
                        assert forall|q: Seq<char>|
                            #[trigger] entries_map(after).contains_key(q) implies entries_map(
                            after,
                        )[q] == entries_map(before).remove(key@)[q] by {
                            let j = choose|j: int| 0 <= j < after.len() && (#[trigger] after[j]).0@ == q;
                            lemma_entry_value(after, j);
                            let j2 = if j < i {
                                j
                            } else {
                                j + 1
                            };
                            assert(after[j] == before[j2]);
                            lemma_entry_value(before, j2);
                        }
                    }
                }
                self.entries = entries;
                Some(v)
            },
            None => {
                assert(entries_map(before).remove(key@) =~= entries_map(before));
                None
            },
        }
    }

    /// Keeps the entries whose mark is set; `keep` marks the entries in
    /// their order, by a property of their values.
    pub fn retain_marked(&mut self, keep: &Vec<bool>, Ghost(p): Ghost<spec_fn(V) -> bool>)
        requires
            keep@.len() == old(self).entry_seq().len(),
            forall|i: int|
                0 <= i < keep@.len() ==> keep@[i] == p(#[trigger] old(self).entry_seq()[i].1),
        ensures
            final(self)@ == old(self)@.restrict(old(self)@.dom().filter(|k| p(old(self)@[k]))),
    {
        proof {
            use_type_invariant(&*self);
        }
        let ghost before = self.entries@;
        let ghost target = entries_map(before).restrict(
            entries_map(before).dom().filter(|k| p(entries_map(before)[k])),
        );
        let mut entries: Vec<(String, V)> = Vec::new();
                std::mem::swap(&mut entries, &mut self.entries);
        let mut kept: Vec<(String, V)> = Vec::new();
        let ghost mut src: Seq<int> = Seq::empty();
        let len = entries.len();
        // Move the entries out one by one from the back.
        while entries.len() > 0
            invariant
                entries@ == before.take(entries@.len() as int),
                entries@.len() <= before.len(),
                len == before.len(),
                keep@.len() == before.len(),
                keys_unique(before),
                forall|i: int| 0 <= i < keep@.len() ==> keep@[i] == p(#[trigger] before[i].1),
                keys_unique(kept@),
                forall|q: Seq<char>|
                    #[trigger] has_key(kept@, q) <==> exists|i: int|
                        entries@.len() <= i < before.len() && (#[trigger] before[i]).0@ == q
                            && keep@[i],
                src.len() == kept@.len(),
                forall|j: int|
                    0 <= j < kept@.len() ==> entries@.len() <= #[trigger] src[j] < before.len()
                        && kept@[j] == before[src[j]] && keep@[src[j]],
            decreases entries@.len(),
        {
            let ghost m = entries@.len() as int;
            let e = entries.pop().unwrap();
            let idx = entries.len();
            proof {
                assert(e == before[idx as int]);
            }
            if keep[idx] {
                let ghost old_kept = kept@;
                let ghost old_src = src;
                kept.push(e);
                proof {
                    src = src.push(idx as int);
                    assert(forall|j: int| 0 <= j < old_kept.len() ==> kept@[j] == old_kept[j] && src[j] == old_src[j]);
                    assert forall|a: int, b: int|
                        0 <= a < kept@.len() && 0 <= b < kept@.len() && a != b implies (
                        #[trigger] kept@[a]).0@ != (#[trigger] kept@[b]).0@ by {
                        if a < old_kept.len() && b < old_kept.len() {
                            assert(kept@[a] == old_kept[a] && kept@[b] == old_kept[b]);
                        } else {
                            let (x, y) = if a < old_kept.len() {
                                (a, b)
                            } else {
                                (b, a)
                            };
                            if x < old_kept.len() {
                                assert(kept@[x] == before[old_src[x]]);
                                assert(old_src[x] != idx);
                                assert(kept@[y] == before[idx as int]);
                            }
                        }
                    }
                    assert forall|q: Seq<char>|
                        #[trigger] has_key(kept@, q) <==> exists|i: int|
                            idx <= i < before.len() && (#[trigger] before[i]).0@ == q
                                && keep@[i] by {
                        if has_key(kept@, q) {
                            let j = choose|j: int| 0 <= j < kept@.len() && (#[trigger] kept@[j]).0@ == q;
                            if j < old_kept.len() {
                                assert(kept@[j] == old_kept[j]);
                                assert(has_key(old_kept, q));
                            } else {
                                assert(before[idx as int].0@ == q);
                            }
                        }
                        if exists|i: int|
                            idx <= i < before.len() && (#[trigger] before[i]).0@ == q && keep@[i] {
                            let i = choose|i: int|
                                idx <= i < before.len() && (#[trigger] before[i]).0@ == q
                                    && keep@[i];
                            if i == idx {
                                assert(kept@[old_kept.len() as int] == before[idx as int]);
                            } else {
                                assert(has_key(old_kept, q));
                                let j = choose|j: int|
                                    0 <= j < old_kept.len() && (#[trigger] old_kept[j]).0@ == q;
                                assert(kept@[j] == old_kept[j]);
                            }
                        }
                    }
                }
            } else {
                proof {
                    assert forall|q: Seq<char>|
                        #[trigger] has_key(kept@, q) <==> exists|i: int|
                            idx <= i < before.len() && (#[trigger] before[i]).0@ == q
                                && keep@[i] by {
                        if exists|i: int|
                            idx <= i < before.len() && (#[trigger] before[i]).0@ == q && keep@[i] {
                            let i = choose|i: int|
                                idx <= i < before.len() && (#[trigger] before[i]).0@ == q
                                    && keep@[i];
                            assert(i != idx);
                        }
                    }
                }
            }
            proof {
                assert(entries@ =~= before.take(idx as int));
            }
        }
        proof {
            assert(entries_map(kept@) =~= target) by {
                assert forall|q: Seq<char>| #[trigger]
                    entries_map(kept@).contains_key(q) == target.contains_key(q) by {
                    if has_key(kept@, q) {
                        let i = choose|i: int|
                            0 <= i < before.len() && (#[trigger] before[i]).0@ == q && keep@[i];
                        lemma_entry_value(before, i);
                    }
                    if target.contains_key(q) {
                        let i = choose|i: int| 0 <= i < before.len() && (#[trigger] before[i]).0@ == q;
                        lemma_entry_value(before, i);
                    }
                }
                assert forall|q: Seq<char>| #[trigger]
                    entries_map(kept@).contains_key(q) implies entries_map(kept@)[q]
                    == target[q] by {
                    let j = choose|j: int| 0 <= j < kept@.len() && (#[trigger] kept@[j]).0@ == q;
                    lemma_entry_value(kept@, j);
                    lemma_entry_value(before, src[j]);
                }
            }
        }
        self.entries = kept;
    }
}

} // verus!
