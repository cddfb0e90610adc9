//! A collection of values keyed by text, each key at most once, seen as a map.
use vstd::prelude::*;

use crate::text::str_eq;

verus! {

/// No key occurs twice among the entries.
pub open spec fn keys_distinct<V>(s: Seq<(String, V)>) -> bool {
    forall|i: int, j: int|
        0 <= i < s.len() && 0 <= j < s.len() && i != j ==> #[trigger] s[i].0@ != #[trigger] s[j].0@
}

/// Some entry has key `k`.
pub open spec fn has_key<V>(s: Seq<(String, V)>, k: Seq<char>) -> bool {
    exists|i: int| 0 <= i < s.len() && #[trigger] s[i].0@ == k
}

/// The position of an entry with key `k`.
pub open spec fn key_index<V>(s: Seq<(String, V)>, k: Seq<char>) -> int {
    choose|i: int| 0 <= i < s.len() && #[trigger] s[i].0@ == k
}

/// The map that the entries spell out.
pub open spec fn entries_map<V>(s: Seq<(String, V)>) -> Map<Seq<char>, V> {
    Map::new(|k: Seq<char>| has_key(s, k), |k: Seq<char>| s[key_index(s, k)].1)
}

/// With distinct keys, the entry at `i` is the one its key finds.
pub proof fn lemma_key_index<V>(s: Seq<(String, V)>, i: int)
    requires
        keys_distinct(s),
        0 <= i < s.len(),
    ensures
        has_key(s, s[i].0@),
        key_index(s, s[i].0@) == i,
        entries_map(s).contains_key(s[i].0@),
        entries_map(s)[s[i].0@] == s[i].1,
{
    assert(s[i].0@ == s[i].0@);
    let j = key_index(s, s[i].0@);
    assert(0 <= j < s.len() && s[j].0@ == s[i].0@);
}

/// A value that can be copied with its view kept.
pub trait DeepCopy: View + Sized {
    fn deep_copy(&self) -> (r: Self)
        ensures
            r@ == self@,
    ;
}

impl DeepCopy for u64 {
    fn deep_copy(&self) -> (r: u64) {
        *self
    }
}

/// Values keyed by text. The order of entries is the order in which keys were
/// first inserted; contracts speak of the map alone. `==` compares the entries
/// in their stored order.
#[derive(Debug, PartialEq, Eq)]
pub struct KeyedList<V> {
    entries: Vec<(String, V)>,
}

impl<V> View for KeyedList<V> {
    type V = Map<Seq<char>, V>;

    closed spec fn view(&self) -> Map<Seq<char>, V> {
        entries_map(self.entries@)
    }
}

impl<V> KeyedList<V> {
    #[verifier::type_invariant]
    closed spec fn inv(&self) -> bool {
        keys_distinct(self.entries@)
    }

    /// The entries in their stored order.
    pub closed spec fn spec_entries(&self) -> Seq<(String, V)> {
        self.entries@
    }

    pub fn new() -> (r: Self)
        ensures
            r@ == Map::<Seq<char>, V>::empty(),
            r.spec_entries().len() == 0,
    {
        let r = KeyedList { entries: Vec::new() };
        assert(r@ =~= Map::<Seq<char>, V>::empty());
        r
    }

    /// The number of keys.
    pub fn len(&self) -> (r: usize)
        ensures
            r == self.spec_entries().len(),
            r == self@.dom().len(),
    {
        proof {
            use_type_invariant(self);
            lemma_entries_dom_len(self.entries@);
        }
        self.entries.len()
    }

    pub fn is_empty(&self) -> (r: bool)
        ensures
            r == (self@ == Map::<Seq<char>, V>::empty()),
    {
        proof {
            use_type_invariant(self);
            if self.entries@.len() > 0 {
                lemma_key_index(self.entries@, 0);
                assert(!Map::<Seq<char>, V>::empty().contains_key(self.entries@[0].0@));
            } else {
                assert(self@ =~= Map::<Seq<char>, V>::empty());
            }
        }
        self.entries.len() == 0
    }

    fn find(&self, k: &str) -> (r: Option<usize>)
        ensures
            match r {
                Some(i) => i < self.entries@.len() && self.entries@[i as int].0@ == k@,
                None => !has_key(self.entries@, k@),
            },
    {
        let mut i: usize = 0;
        while i < self.entries.len()
            invariant
                i <= self.entries@.len(),
                forall|j: int| 0 <= j < i ==> #[trigger] self.entries@[j].0@ != k@,
            decreases self.entries@.len() - i,
        {
            if str_eq(self.entries[i].0.as_str(), k) {
                return Some(i);
            }
            i = i + 1;
        }
        None
    }

    /// The value under `k`, if any.
    pub fn get(&self, k: &str) -> (r: Option<&V>)
        ensures
            match r {
                Some(v) => self@.contains_key(k@) && *v == self@[k@],
                None => !self@.contains_key(k@),
            },
    {
        proof {
            use_type_invariant(self);
        }
        match self.find(k) {
            Some(i) => {
                proof {
                    lemma_key_index(self.entries@, i as int);
                }
                Some(&self.entries[i].1)
            },
            None => None,
        }
    }

    pub fn contains_key(&self, k: &str) -> (r: bool)
        ensures
            r == self@.contains_key(k@),
    {
        self.get(k).is_some()
    }

    /// Put `v` under `k`, replacing what was there.
    pub fn insert(&mut self, k: String, v: V)
        ensures
            final(self)@ == old(self)@.insert(k@, v),
    {
        proof {
            use_type_invariant(&*self);
        }
        let found = self.find(k.as_str());
        let mut entries: Vec<(String, V)> = Vec::new();
        std::mem::swap(&mut entries, &mut self.entries);
        let ghost before = entries@;
        let ghost key = k@;
        match found {
            Some(i) => {
                entries.set(i, (k, v));
                proof {
                    let after = entries@;
                    assert(keys_distinct(after)) by {
                        assert forall|a: int, b: int|
                            0 <= a < after.len() && 0 <= b < after.len() && a != b implies #[trigger] after[a].0@
                            != #[trigger] after[b].0@ by {
                            if a != i && b != i {
                                assert(after[a] == before[a] && after[b] == before[b]);
                            } else if a == i {
                                assert(after[b] == before[b]);
                            } else {
                                assert(after[a] == before[a]);
                            }
                        }
                    }
                    lemma_set_entry(before, i as int, key, v, after);
                }
            },
            None => {
                entries.push((k, v));
                proof {
                    let after = entries@;
                    assert(keys_distinct(after)) by {
                        assert forall|a: int, b: int|
                            0 <= a < after.len() && 0 <= b < after.len() && a != b implies #[trigger] after[a].0@
                            != #[trigger] after[b].0@ by {
                            if a < before.len() && b < before.len() {
                                assert(after[a] == before[a] && after[b] == before[b]);
                            } else if a < before.len() {
                                assert(after[a] == before[a]);
                            } else {
                                assert(after[b] == before[b]);
                            }
                        }
                    }
                    lemma_push_entry(before, key, v, after);
                }
            },
        }
        self.entries = entries;
    }

    /// Take the value under `k` out, if any.
    pub fn remove(&mut self, k: &str) -> (r: Option<V>)
        ensures
            final(self)@ == old(self)@.remove(k@),
            match r {
                Some(v) => old(self)@.contains_key(k@) && v == old(self)@[k@],
                None => !old(self)@.contains_key(k@),
            },
    {
        proof {
            use_type_invariant(&*self);
        }
        let found = self.find(k);
        match found {
            Some(i) => {
                let mut entries: Vec<(String, V)> = Vec::new();
                std::mem::swap(&mut entries, &mut self.entries);
                let ghost before = entries@;
                proof {
                    lemma_key_index(before, i as int);
                }
                let (_, v) = entries.remove(i);
                proof {
                    let after = entries@;
                    assert(keys_distinct(after)) by {
                        assert forall|a: int, b: int|
                            0 <= a < after.len() && 0 <= b < after.len() && a != b implies #[trigger] after[a].0@
                            != #[trigger] after[b].0@ by {
                            let a2 = if a < i { a } else { a + 1 };
                            let b2 = if b < i { b } else { b + 1 };
                            assert(after[a] == before[a2] && after[b] == before[b2]);
                        }
                    }
                    lemma_remove_entry(before, i as int, after);
                }
                self.entries = entries;
                Some(v)
            },
            None => {
                proof {
                    assert(self@.remove(k@) =~= self@);
                }
                None
            },
        }
    }

    /// The entries in their stored order.
    pub fn entries(&self) -> (r: &[(String, V)])
        ensures
            r@ == self.spec_entries(),
            keys_distinct(r@),
            self@ == entries_map(r@),
    {
        proof {
            use_type_invariant(self);
        }
        self.entries.as_slice()
    }
}

impl<V: DeepCopy> KeyedList<V> {
    /// A copy with the same keys and, under each, a value of the same view.
    pub fn deep_copy(&self) -> (r: Self)
        ensures
            r@.dom() == self@.dom(),
            forall|k: Seq<char>| #[trigger] r@.contains_key(k) ==> r@[k]@ == self@[k]@,
    {
        proof {
            use_type_invariant(self);
        }
        let mut r: KeyedList<V> = KeyedList::new();
        let mut i: usize = 0;
        while i < self.entries.len()
            invariant
                i <= self.entries@.len(),
                keys_distinct(self.entries@),
                self@ == entries_map(self.entries@),
                forall|j: int| 0 <= j < i ==> #[trigger] r@.contains_key(self.entries@[j].0@) && r@[self.entries@[j].0@]@ == self.entries@[j].1@,
                forall|k: Seq<char>| #[trigger] r@.contains_key(k) ==> exists|j: int| 0 <= j < i && #[trigger] self.entries@[j].0@ == k,
            decreases self.entries@.len() - i,
        {
            let key = self.entries[i].0.clone();
            let value = self.entries[i].1.deep_copy();
            let ghost before = r@;
            r.insert(key, value);
            proof {
                assert forall|j: int| 0 <= j < i + 1 implies #[trigger] r@.contains_key(self.entries@[j].0@) && r@[self.entries@[j].0@]@ == self.entries@[j].1@ by {
                    if j < i {
                        assert(self.entries@[j].0@ != self.entries@[i as int].0@);
                    }
                }
                assert forall|k: Seq<char>| #[trigger] r@.contains_key(k) implies exists|j: int| 0 <= j < i + 1 && #[trigger] self.entries@[j].0@ == k by {
                    if k != self.entries@[i as int].0@ {
                        assert(before.contains_key(k));
                    } else {
                        assert(self.entries@[i as int].0@ == k);
                    }
                }
            }
            i = i + 1;
        }
        proof {
            assert forall|k: Seq<char>| r@.contains_key(k) <==> self@.contains_key(k) by {
                if r@.contains_key(k) {
                    let j = choose|j: int| 0 <= j < self.entries@.len() && #[trigger] self.entries@[j].0@ == k;
                    lemma_key_index(self.entries@, j);
                }
                if self@.contains_key(k) {
                    let j = key_index(self.entries@, k);
                    assert(self.entries@[j].0@ == k);
                }
            }
            assert(r@.dom() =~= self@.dom());
            assert forall|k: Seq<char>| #[trigger] r@.contains_key(k) implies r@[k]@ == self@[k]@ by {
                let j = key_index(self.entries@, k);
                assert(self.entries@[j].0@ == k);
                lemma_key_index(self.entries@, j);
            }
        }
        r
    }
}

proof fn lemma_set_entry<V>(before: Seq<(String, V)>, i: int, k: Seq<char>, v: V, after: Seq<(String, V)>)
    requires
        keys_distinct(before),
        keys_distinct(after),
        0 <= i < before.len(),
        before[i].0@ == k,
        after.len() == before.len(),
        after[i].0@ == k,
        after[i].1 == v,
        forall|j: int| 0 <= j < before.len() && j != i ==> after[j] == before[j],
    ensures
        entries_map(after) == entries_map(before).insert(k, v),
{
    let m = entries_map(before).insert(k, v);
    assert forall|key: Seq<char>| #[trigger] entries_map(after).contains_key(key) <==> m.contains_key(key) by {
        if has_key(after, key) {
            let j = key_index(after, key);
            if j != i {
                assert(before[j].0@ == key);
            }
        }
        if has_key(before, key) {
            let j = key_index(before, key);
            if j != i {
                assert(after[j].0@ == key);
            }
        }
        if key == k {
            assert(after[i].0@ == key);
        }
    }
    assert forall|key: Seq<char>| #[trigger] entries_map(after).contains_key(key) implies entries_map(after)[key]
        == m[key] by {
        let j = key_index(after, key);
        lemma_key_index(after, j);
        if j != i {
            lemma_key_index(before, j);
        }
    }
    assert(entries_map(after) =~= m);
}

proof fn lemma_push_entry<V>(before: Seq<(String, V)>, k: Seq<char>, v: V, after: Seq<(String, V)>)
    requires
        keys_distinct(before),
        keys_distinct(after),
        !has_key(before, k),
        after.len() == before.len() + 1,
        after[before.len() as int].0@ == k,
        after[before.len() as int].1 == v,
        forall|j: int| 0 <= j < before.len() ==> after[j] == before[j],
    ensures
        entries_map(after) == entries_map(before).insert(k, v),
{
    let n = before.len() as int;
    let m = entries_map(before).insert(k, v);
    assert forall|key: Seq<char>| #[trigger] entries_map(after).contains_key(key) <==> m.contains_key(key) by {
        if has_key(after, key) {
            let j = key_index(after, key);
            if j != n {
                assert(before[j].0@ == key);
            }
        }
        if has_key(before, key) {
            let j = key_index(before, key);
            assert(after[j].0@ == key);
        }
        if key == k {
            assert(after[n].0@ == key);
        }
    }
    assert forall|key: Seq<char>| #[trigger] entries_map(after).contains_key(key) implies entries_map(after)[key]
        == m[key] by {
        let j = key_index(after, key);
        lemma_key_index(after, j);
        if j != n {
            lemma_key_index(before, j);
        }
    }
    assert(entries_map(after) =~= m);
}

proof fn lemma_remove_entry<V>(before: Seq<(String, V)>, i: int, after: Seq<(String, V)>)
    requires
        keys_distinct(before),
        keys_distinct(after),
        0 <= i < before.len(),
        after == before.remove(i),
    ensures
        entries_map(after) == entries_map(before).remove(before[i].0@),
{
    let k = before[i].0@;
    let m = entries_map(before).remove(k);
    assert forall|key: Seq<char>| #[trigger] entries_map(after).contains_key(key) <==> m.contains_key(key) by {
        if has_key(after, key) {
            let j = key_index(after, key);
            let j2 = if j < i { j } else { j + 1 };
            assert(before[j2].0@ == key);
            assert(j2 != i);
        }
        if has_key(before, key) && key != k {
            let j = key_index(before, key);
            assert(j != i);
            let j2 = if j < i { j } else { j - 1 };
            assert(after[j2].0@ == key);
        }
    }
    assert forall|key: Seq<char>| #[trigger] entries_map(after).contains_key(key) implies entries_map(after)[key]
        == m[key] by {
        let j = key_index(after, key);
        lemma_key_index(after, j);
        let j2 = if j < i { j } else { j + 1 };
        assert(after[j] == before[j2]);
        lemma_key_index(before, j2);
    }
    assert(entries_map(after) =~= m);
}

proof fn lemma_entries_dom_len<V>(s: Seq<(String, V)>)
    requires
        keys_distinct(s),
    ensures
        entries_map(s).dom().finite(),
        entries_map(s).dom().len() == s.len(),
    decreases s.len(),
{
    if s.len() == 0 {
        assert(entries_map(s).dom() =~= Set::<Seq<char>>::empty());
    } else {
        let t = s.drop_last();
        let n = t.len() as int;
        assert(keys_distinct(t)) by {
            assert forall|a: int, b: int|
                0 <= a < t.len() && 0 <= b < t.len() && a != b implies #[trigger] t[a].0@ != #[trigger] t[b].0@ by {
                assert(t[a] == s[a] && t[b] == s[b]);
            }
        }
        lemma_entries_dom_len(t);
        assert(!has_key(t, s[n].0@)) by {
            if has_key(t, s[n].0@) {
                let j = key_index(t, s[n].0@);
                assert(t[j] == s[j]);
            }
        }
        assert(entries_map(s).dom() =~= entries_map(t).dom().insert(s[n].0@)) by {
            assert forall|key: Seq<char>| #[trigger] entries_map(s).dom().contains(key) <==> entries_map(t).dom().insert(
                s[n].0@,
            ).contains(key) by {
                if has_key(s, key) {
                    let j = key_index(s, key);
                    if j < n {
                        assert(t[j] == s[j]);
                    }
                }
                if has_key(t, key) {
                    let j = key_index(t, key);
                    assert(t[j] == s[j]);
                }
                if key == s[n].0@ {
                    assert(s[n].0@ == key);
                }
            }
        }
    }
}

} // verus!
