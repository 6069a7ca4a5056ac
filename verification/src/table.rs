//! A table keyed by text that keeps the order in which keys were first
//! inserted, and a set of identifiers.

use vstd::prelude::*;

use crate::text::same_text;

verus! {

/// Whether some entry of `s` has the key `k`.
pub open spec fn has_key<T>(s: Seq<(Seq<char>, T)>, k: Seq<char>) -> bool {
    exists|i: int| 0 <= i < s.len() && (#[trigger] s[i]).0 == k
}

/// The position of an entry of `s` with the key `k`.
pub open spec fn key_index<T>(s: Seq<(Seq<char>, T)>, k: Seq<char>) -> int
    recommends
        has_key(s, k),
{
    choose|i: int| 0 <= i < s.len() && (#[trigger] s[i]).0 == k
}

/// Whether no key occurs twice.
pub open spec fn distinct_keys<T>(s: Seq<(Seq<char>, T)>) -> bool {
    forall|i: int, j: int|
        0 <= i < s.len() && 0 <= j < s.len() && (#[trigger] s[i]).0 == (#[trigger] s[j]).0 ==> i == j
}

/// The value stored under `k`.
pub open spec fn lookup<T>(s: Seq<(Seq<char>, T)>, k: Seq<char>) -> Option<T> {
    if has_key(s, k) {
        Some(s[key_index(s, k)].1)
    } else {
        None
    }
}

/// `s` with `v` stored under `k`: in the place of the entry that `k` had, or
/// at the end.
pub open spec fn stored<T>(s: Seq<(Seq<char>, T)>, k: Seq<char>, v: T) -> Seq<(Seq<char>, T)> {
    if has_key(s, k) {
        s.update(key_index(s, k), (k, v))
    } else {
        s.push((k, v))
    }
}

/// `s` without the entry of `k`.
pub open spec fn removed<T>(s: Seq<(Seq<char>, T)>, k: Seq<char>) -> Seq<(Seq<char>, T)> {
    if has_key(s, k) {
        s.remove(key_index(s, k))
    } else {
        s
    }
}

/// In a table without repeated keys, the position of an entry is the position
/// of its key.
pub proof fn lemma_key_index<T>(s: Seq<(Seq<char>, T)>, i: int)
    requires
        distinct_keys(s),
        0 <= i < s.len(),
    ensures
        has_key(s, s[i].0),
        key_index(s, s[i].0) == i,
        lookup(s, s[i].0) == Some(s[i].1),
{
    let j = key_index(s, s[i].0);
    assert(0 <= j < s.len() && s[j].0 == s[i].0);
}

/// Storing a value makes it the one that is found under its key, and leaves
/// what is found under every other key as it was.
pub proof fn law_lookup_stored<T>(s: Seq<(Seq<char>, T)>, k: Seq<char>, v: T, other: Seq<char>)
    requires
        distinct_keys(s),
    ensures
        distinct_keys(stored(s, k, v)),
        lookup(stored(s, k, v), other) == (if other == k { Some(v) } else { lookup(s, other) }),
{
    let t = stored(s, k, v);
    if has_key(s, k) {
        let p = key_index(s, k);
        assert(0 <= p < s.len() && s[p].0 == k);
        assert forall|i: int, j: int|
            0 <= i < t.len() && 0 <= j < t.len() && (#[trigger] t[i]).0 == (#[trigger] t[j]).0 implies i == j by {
            assert(t[i].0 == s[i].0);
            assert(t[j].0 == s[j].0);
        }
        lemma_key_index(t, p);
        if has_key(s, other) {
            let q = key_index(s, other);
            assert(t[q].0 == other);
            lemma_key_index(t, q);
        } else if has_key(t, other) {
            let q = key_index(t, other);
            assert(s[q].0 == other);
        }
    } else {
        let p = s.len() as int;
        assert forall|i: int, j: int|
            0 <= i < t.len() && 0 <= j < t.len() && (#[trigger] t[i]).0 == (#[trigger] t[j]).0 implies i == j by {
            if i < p {
                assert(t[i] == s[i]);
            }
            if j < p {
                assert(t[j] == s[j]);
            }
        }
        lemma_key_index(t, p);
        if has_key(s, other) {
            let q = key_index(s, other);
            assert(t[q] == s[q]);
            lemma_key_index(t, q);
        } else if has_key(t, other) {
            let q = key_index(t, other);
            if q < p {
                assert(s[q].0 == other);
            }
        }
    }
}

/// After a key is removed nothing is found under it, and what is found under
/// every other key is as it was.
pub proof fn law_lookup_removed<T>(s: Seq<(Seq<char>, T)>, k: Seq<char>, other: Seq<char>)
    requires
        distinct_keys(s),
    ensures
        distinct_keys(removed(s, k)),
        lookup(removed(s, k), other) == (if other == k { None::<T> } else { lookup(s, other) }),
{
    let t = removed(s, k);
    if has_key(s, k) {
        let p = key_index(s, k);
        assert(0 <= p < s.len() && s[p].0 == k);
        assert forall|i: int, j: int|
            0 <= i < t.len() && 0 <= j < t.len() && (#[trigger] t[i]).0 == (#[trigger] t[j]).0 implies i == j by {
            let si = if i < p { i } else { i + 1 };
            let sj = if j < p { j } else { j + 1 };
            assert(t[i] == s[si]);
            assert(t[j] == s[sj]);
        }
        if has_key(t, other) {
            let q = key_index(t, other);
            let sq = if q < p { q } else { q + 1 };
            assert(t[q] == s[sq]);
            lemma_key_index(s, sq);
        }
        if has_key(s, other) && other != k {
            let q = key_index(s, other);
            let tq = if q < p { q } else { q - 1 };
            assert(t[tq] == s[q]);
            lemma_key_index(t, tq);
        }
    }
}

spec fn pairs<T>(entries: Seq<(String, T)>) -> Seq<(Seq<char>, T)> {
    entries.map_values(|e: (String, T)| (e.0@, e.1))
}

proof fn lemma_pairs_update<T>(entries: Seq<(String, T)>, i: int)
    requires
        0 <= i < entries.len(),
    ensures
        forall|x: T|
            #[trigger] pairs(entries.update(i, (entries[i].0, x))) == pairs(entries).update(i, (entries[i].0@, x)),
{
    assert forall|x: T|
        #[trigger] pairs(entries.update(i, (entries[i].0, x))) == pairs(entries).update(i, (entries[i].0@, x)) by {
        assert(pairs(entries.update(i, (entries[i].0, x))) =~= pairs(entries).update(i, (entries[i].0@, x)));
    }
}

/// A table from text to values. Keys are listed in the order in which they
/// were first inserted.
#[derive(Debug)]
pub struct KeyedTable<T> {
    entries: Vec<(String, T)>,
}

impl<T> View for KeyedTable<T> {
    type V = Seq<(Seq<char>, T)>;

    closed spec fn view(&self) -> Seq<(Seq<char>, T)> {
        pairs(self.entries@)
    }
}

impl<T> KeyedTable<T> {
    /// No key occurs twice.
    pub open spec fn wf(&self) -> bool {
        distinct_keys(self@)
    }

    pub fn new() -> (table: Self)
        ensures
            table@ == Seq::<(Seq<char>, T)>::empty(),
            table.wf(),
    {
        let table = KeyedTable { entries: Vec::new() };
        assert(table@ =~= Seq::<(Seq<char>, T)>::empty());
        table
    }

    /// The number of entries.
    pub fn len(&self) -> (n: usize)
        ensures
            n == self@.len(),
    {
        self.entries.len()
    }

    pub fn is_empty(&self) -> (empty: bool)
        ensures
            empty == (self@.len() == 0),
    {
        self.entries.len() == 0
    }

    /// The position of the entry of `key`.
    pub fn find(&self, key: &str) -> (r: Option<usize>)
        requires
            self.wf(),
        ensures
            match r {
                Some(i) => i < self@.len() && has_key(self@, key@) && key_index(self@, key@) == i,
                None => !has_key(self@, key@),
            },
    {
        let mut i: usize = 0;
        while i < self.entries.len()
            invariant
                i <= self@.len(),
                self@.len() == self.entries@.len(),
                self.wf(),
                forall|j: int| 0 <= j < i ==> (#[trigger] self@[j]).0 != key@,
            decreases self.entries@.len() - i,
        {
            assert(self@[i as int].0 == self.entries@[i as int].0@);
            if same_text(self.entries[i].0.as_str(), key) {
                proof {
                    lemma_key_index(self@, i as int);
                }
                return Some(i);
            }
            i = i + 1;
        }
        None
    }

    pub fn contains_key(&self, key: &str) -> (found: bool)
        requires
            self.wf(),
        ensures
            found == has_key(self@, key@),
    {
        self.find(key).is_some()
    }

    /// The value stored under `key`.
    pub fn get(&self, key: &str) -> (r: Option<&T>)
        requires
            self.wf(),
        ensures
            match r {
                Some(v) => lookup(self@, key@) == Some(*v),
                None => lookup(self@, key@) is None,
            },
    {
        match self.find(key) {
            Some(i) => Some(&self.entries[i].1),
            None => None,
        }
    }

    /// The value stored under `key`, to be changed in place.
    pub fn get_mut(&mut self, key: &str) -> (r: Option<&mut T>)
        requires
            old(self).wf(),
        ensures
            match r {
                Some(v) => {
                    &&& lookup(old(self)@, key@) == Some(*v)
                    &&& final(self)@ == stored(old(self)@, key@, *final(v))
                },
                None => lookup(old(self)@, key@) is None && final(self)@ == old(self)@,
            },
            final(self).wf(),
    {
        match self.find(key) {
            Some(i) => {
                proof {
                    lemma_pairs_update(self.entries@, i as int);
                    assert forall|x: T| distinct_keys(#[trigger] stored(self@, key@, x)) by {
                        law_lookup_stored(self@, key@, x, key@);
                    }
                }
                Some(&mut self.entries[i].1)
            }
            None => None,
        }
    }

    /// Stores `value` under `key`, in place of the value it may have had.
    pub fn insert(&mut self, key: String, value: T)
        requires
            old(self).wf(),
        ensures
            final(self)@ == stored(old(self)@, key@, value),
            final(self).wf(),
    {
        proof {
            law_lookup_stored(self@, key@, value, key@);
        }
        match self.find(key.as_str()) {
            Some(i) => {
                self.entries[i].1 = value;
            }
            None => {
                self.entries.push((key, value));
            }
        }
        assert(self@ =~= stored(old(self)@, key@, value));
    }

    /// Removes the entry of `key`, if there is one.
    pub fn remove(&mut self, key: &str)
        requires
            old(self).wf(),
        ensures
            final(self)@ == removed(old(self)@, key@),
            final(self).wf(),
    {
        proof {
            law_lookup_removed(self@, key@, key@);
        }
        if let Some(i) = self.find(key) {
            let _ = self.entries.remove(i);
        }
        assert(self@ =~= removed(old(self)@, key@));
    }

    /// The key of the entry at position `i`.
    pub fn key_at(&self, i: usize) -> (key: &String)
        requires
            i < self@.len(),
        ensures
            key@ == self@[i as int].0,
    {
        &self.entries[i].0
    }

    /// The value of the entry at position `i`.
    pub fn value_at(&self, i: usize) -> (value: &T)
        requires
            i < self@.len(),
        ensures
            *value == self@[i as int].1,
    {
        &self.entries[i].1
    }

    /// The value of the entry at position `i`, to be changed in place.
    pub fn value_at_mut(&mut self, i: usize) -> (value: &mut T)
        requires
            i < old(self)@.len(),
        ensures
            *value == old(self)@[i as int].1,
            final(self)@ == old(self)@.update(i as int, (old(self)@[i as int].0, *final(value))),
    {
        proof {
            lemma_pairs_update(self.entries@, i as int);
        }
        &mut self.entries[i].1
    }
}

/// A set of identifiers.
#[derive(Debug)]
pub struct IdSet {
    ids: Vec<String>,
}

impl View for IdSet {
    type V = Set<Seq<char>>;

    closed spec fn view(&self) -> Set<Seq<char>> {
        Set::new(|id: Seq<char>| exists|i: int| 0 <= i < self.ids@.len() && #[trigger] self.ids@[i]@ == id)
    }
}

impl IdSet {
    pub fn new() -> (set: Self)
        ensures
            set@ == Set::<Seq<char>>::empty(),
    {
        let set = IdSet { ids: Vec::new() };
        assert(set@ =~= Set::<Seq<char>>::empty());
        set
    }

    pub fn contains(&self, id: &str) -> (found: bool)
        ensures
            found == self@.contains(id@),
    {
        let mut i: usize = 0;
        while i < self.ids.len()
            invariant
                i <= self.ids@.len(),
                forall|j: int| 0 <= j < i ==> #[trigger] self.ids@[j]@ != id@,
            decreases self.ids@.len() - i,
        {
            if same_text(self.ids[i].as_str(), id) {
                return true;
            }
            i = i + 1;
        }
        false
    }

    /// Adds `id` to the set.
    pub fn insert(&mut self, id: String)
        ensures
            final(self)@ == old(self)@.insert(id@),
    {
        if !self.contains(id.as_str()) {
            let ghost before = self.ids@;
            self.ids.push(id);
            assert forall|x: Seq<char>| self@.contains(x) == old(self)@.insert(id@).contains(x) by {
                if old(self)@.contains(x) {
                    let i = choose|i: int| 0 <= i < before.len() && #[trigger] before[i]@ == x;
                    assert(self.ids@[i]@ == x);
                }
                if x == id@ {
                    assert(self.ids@[before.len() as int]@ == x);
                }
                if self@.contains(x) {
                    let i = choose|i: int| 0 <= i < self.ids@.len() && #[trigger] self.ids@[i]@ == x;
                    if i < before.len() {
                        assert(before[i]@ == x);
                    }
                }
            }
        }
        assert(self@ =~= old(self)@.insert(id@));
    }
}

impl Clone for IdSet {
    fn clone(&self) -> (r: Self)
        ensures
            r@ == self@,
    {
        let mut ids: Vec<String> = Vec::new();
        let mut i: usize = 0;
        while i < self.ids.len()
            invariant
                i <= self.ids@.len(),
                ids@ == self.ids@.take(i as int),
            decreases self.ids@.len() - i,
        {
            ids.push(self.ids[i].clone());
            i = i + 1;
            assert(ids@ =~= self.ids@.take(i as int));
        }
        assert(self.ids@.take(i as int) =~= self.ids@);
        let r = IdSet { ids };
        assert(r@ =~= self@);
        r
    }
}

/// A value is found under a key exactly if the table has an entry with that key, and then it
/// is the value of such an entry.
pub proof fn law_lookup_finds_an_entry<T>(s: Seq<(Seq<char>, T)>, k: Seq<char>)
    ensures
        lookup(s, k) is Some <==> exists|i: int| 0 <= i < s.len() && (#[trigger] s[i]).0 == k,
        lookup(s, k) is Some ==> exists|i: int|
            0 <= i < s.len() && (#[trigger] s[i]).0 == k && s[i].1 == lookup(s, k)->0,
        has_key(s, k) <==> lookup(s, k) is Some,
{
    if has_key(s, k) {
        let i = key_index(s, k);
        assert(0 <= i < s.len() && s[i].0 == k);
    }
}

/// Storing under a new key adds an entry at the end and leaves the others where they are;
/// storing under a key that is there changes its entry in its place.
pub proof fn law_stored_entries_keep_their_places<T>(s: Seq<(Seq<char>, T)>, k: Seq<char>, v: T, i: int)
    requires
        distinct_keys(s),
        0 <= i < s.len(),
    ensures
        stored(s, k, v).len() == s.len() + if lookup(s, k) is Some { 0int } else { 1int },
        stored(s, k, v)[i].0 == s[i].0,
        s[i].0 != k ==> stored(s, k, v)[i] == s[i],
        s[i].0 == k ==> stored(s, k, v)[i].1 == v,
        lookup(s, k) is None ==> stored(s, k, v).last() == (k, v),
{
    lemma_key_index(s, i);
    if has_key(s, k) {
        let p = key_index(s, k);
        assert(0 <= p < s.len() && s[p].0 == k);
    }
}

/// Removing a key removes its entry, if there is one, and leaves the others in their order.
pub proof fn law_removed_entry_leaves_the_order<T>(s: Seq<(Seq<char>, T)>, k: Seq<char>, i: int)
    requires
        distinct_keys(s),
        0 <= i < s.len(),
        s[i].0 == k,
    ensures
        removed(s, k) == s.take(i) + s.skip(i + 1),
{
    lemma_key_index(s, i);
    assert(removed(s, k) =~= s.take(i) + s.skip(i + 1));
}

} // verus!
