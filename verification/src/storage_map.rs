//! A keyed store: at most one value under each key.
use vstd::prelude::*;

verus! {

/// What a store can hold: a value that can be written down a second time.
pub trait Stored: View + Sized {
    /// A second value with the same contents.
    fn duplicate(&self) -> (r: Self)
        ensures
            r@ == self@,
    ;
}

/// What a store can be keyed by.
pub trait StoredKey: Stored {
    /// Whether two keys are the same.
    fn same(&self, other: &Self) -> (r: bool)
        ensures
            r == (self@ == other@),
    ;
}

/// A map from keys to values, held as a list of entries in which no key occurs
/// twice.
pub struct StorageMap<K: StoredKey, V: Stored> {
    entries: Vec<(K, V)>,
}

/// Some entry of `s` carries the key `k`.
spec fn has_key<K: StoredKey, V: Stored>(s: Seq<(K, V)>, k: K::V) -> bool {
    exists|i: int| 0 <= i < s.len() && #[trigger] s[i].0@ == k
}

/// The position of the entry of `s` that carries the key `k`.
spec fn position<K: StoredKey, V: Stored>(s: Seq<(K, V)>, k: K::V) -> int {
    choose|i: int| 0 <= i < s.len() && #[trigger] s[i].0@ == k
}

/// No key occurs twice.
spec fn unique_keys<K: StoredKey, V: Stored>(s: Seq<(K, V)>) -> bool {
    forall|i: int, j: int|
        0 <= i < s.len() && 0 <= j < s.len() && #[trigger] s[i].0@ == #[trigger] s[j].0@ ==> i == j
}

/// The map that a list of entries stands for.
spec fn as_map<K: StoredKey, V: Stored>(s: Seq<(K, V)>) -> Map<K::V, V::V> {
    Map::new(|k: K::V| has_key(s, k), |k: K::V| s[position(s, k)].1@)
}

/// What the map holds under the key of the entry at `i`.
proof fn entry_in_map<K: StoredKey, V: Stored>(s: Seq<(K, V)>, i: int)
    requires
        unique_keys(s),
        0 <= i < s.len(),
    ensures
        as_map(s).contains_key(s[i].0@),
        as_map(s)[s[i].0@] == s[i].1@,
{
    assert(has_key(s, s[i].0@));
    let p = position(s, s[i].0@);
    assert(0 <= p < s.len() && s[p].0@ == s[i].0@);
}

/// Replacing the value of an entry replaces it in the map.
proof fn update_entry<K: StoredKey, V: Stored>(s: Seq<(K, V)>, i: int, entry: (K, V))
    requires
        unique_keys(s),
        0 <= i < s.len(),
        entry.0@ == s[i].0@,
    ensures
        unique_keys(s.update(i, entry)),
        as_map(s.update(i, entry)) == as_map(s).insert(entry.0@, entry.1@),
{
    let t = s.update(i, entry);
    assert forall|a: int, b: int|
        0 <= a < t.len() && 0 <= b < t.len() && #[trigger] t[a].0@ == #[trigger] t[b].0@ implies a == b by {
        assert(t[a].0@ == s[a].0@);
        assert(t[b].0@ == s[b].0@);
    }
    same_map(t, as_map(s).insert(entry.0@, entry.1@), s, i);
}

/// `t` differs from `s` at most at `i`, where it has the same key; then its map
/// is `m` where `m` is the map of `s` with the entry at `i` of `t` put in.
proof fn same_map<K: StoredKey, V: Stored>(
    t: Seq<(K, V)>,
    m: Map<K::V, V::V>,
    s: Seq<(K, V)>,
    i: int,
)
    requires
        unique_keys(s),
        unique_keys(t),
        0 <= i < s.len(),
        t.len() == s.len(),
        forall|a: int| 0 <= a < s.len() && a != i ==> t[a] == s[a],
        t[i].0@ == s[i].0@,
        m == as_map(s).insert(t[i].0@, t[i].1@),
    ensures
        as_map(t) == m,
{
    assert forall|k: K::V| #[trigger] as_map(t).contains_key(k) <==> m.contains_key(k) by {
        if has_key(t, k) {
            let a = position(t, k);
            assert(s[a].0@ == k);
            assert(has_key(s, k));
        }
        if has_key(s, k) {
            let a = position(s, k);
            assert(t[a].0@ == k);
            assert(has_key(t, k));
        }
    }
    assert forall|k: K::V| #[trigger] as_map(t).contains_key(k) implies as_map(t)[k] == m[k] by {
        let a = position(t, k);
        assert(0 <= a < t.len() && t[a].0@ == k);
        entry_in_map(t, a);
        if a != i {
            assert(s[a].0@ == k);
            entry_in_map(s, a);
            assert(k != t[i].0@);
        }
    }
    assert(as_map(t) =~= m);
}

/// Adding an entry under a new key adds it to the map.
proof fn push_entry<K: StoredKey, V: Stored>(s: Seq<(K, V)>, entry: (K, V))
    requires
        unique_keys(s),
        !has_key(s, entry.0@),
    ensures
        unique_keys(s.push(entry)),
        as_map(s.push(entry)) == as_map(s).insert(entry.0@, entry.1@),
{
    let t = s.push(entry);
    assert forall|a: int, b: int|
        0 <= a < t.len() && 0 <= b < t.len() && #[trigger] t[a].0@ == #[trigger] t[b].0@ implies a == b by {
        if a < s.len() {
            assert(t[a] == s[a]);
        }
        if b < s.len() {
            assert(t[b] == s[b]);
        }
        if a < s.len() && b == s.len() {
            assert(s[a].0@ == entry.0@);
        }
        if b < s.len() && a == s.len() {
            assert(s[b].0@ == entry.0@);
        }
    }
    let m = as_map(s).insert(entry.0@, entry.1@);
    assert(t[s.len() as int] == entry);
    assert forall|k: K::V| #[trigger] as_map(t).contains_key(k) <==> m.contains_key(k) by {
        if has_key(t, k) {
            let a = position(t, k);
            if a < s.len() {
                assert(s[a].0@ == k);
                assert(has_key(s, k));
            }
        }
        if has_key(s, k) {
            let a = position(s, k);
            assert(t[a].0@ == k);
        }
        if k == entry.0@ {
            assert(t[s.len() as int].0@ == k);
        }
    }
    assert forall|k: K::V| #[trigger] as_map(t).contains_key(k) implies as_map(t)[k] == m[k] by {
        let a = position(t, k);
        assert(0 <= a < t.len() && t[a].0@ == k);
        entry_in_map(t, a);
        if a < s.len() {
            assert(t[a] == s[a]);
            entry_in_map(s, a);
            assert(s[a].0@ == k);
            assert(k != entry.0@);
        }
    }
    assert(as_map(t) =~= m);
}

/// Taking an entry out takes its key out of the map.
proof fn remove_entry<K: StoredKey, V: Stored>(s: Seq<(K, V)>, i: int)
    requires
        unique_keys(s),
        0 <= i < s.len(),
    ensures
        unique_keys(s.remove(i)),
        as_map(s.remove(i)) == as_map(s).remove(s[i].0@),
{
    let t = s.remove(i);
    assert forall|a: int, b: int|
        0 <= a < t.len() && 0 <= b < t.len() && #[trigger] t[a].0@ == #[trigger] t[b].0@ implies a == b by {
        let a2 = if a < i { a } else { a + 1 };
        let b2 = if b < i { b } else { b + 1 };
        assert(t[a] == s[a2]);
        assert(t[b] == s[b2]);
        assert(s[a2].0@ == s[b2].0@);
    }
    let m = as_map(s).remove(s[i].0@);
    assert forall|k: K::V| #[trigger] as_map(t).contains_key(k) <==> m.contains_key(k) by {
        if has_key(t, k) {
            let a = position(t, k);
            let a2 = if a < i { a } else { a + 1 };
            assert(t[a] == s[a2]);
            assert(s[a2].0@ == k);
            assert(has_key(s, k));
            assert(k != s[i].0@);
        }
        if has_key(s, k) && k != s[i].0@ {
            let a = position(s, k);
            let a2 = if a < i { a } else { a - 1 };
            assert(t[a2] == s[a]);
            assert(t[a2].0@ == k);
        }
    }
    assert forall|k: K::V| #[trigger] as_map(t).contains_key(k) implies as_map(t)[k] == m[k] by {
        let a = position(t, k);
        assert(0 <= a < t.len() && t[a].0@ == k);
        let a2 = if a < i { a } else { a + 1 };
        assert(t[a] == s[a2]);
        entry_in_map(t, a);
        entry_in_map(s, a2);
    }
    assert(as_map(t) =~= m);
}

impl<K: StoredKey, V: Stored> View for StorageMap<K, V> {
    type V = Map<K::V, V::V>;

    closed spec fn view(&self) -> Map<K::V, V::V> {
        as_map(self.entries@)
    }
}

impl<K: StoredKey, V: Stored> StorageMap<K, V> {
    #[verifier::type_invariant]
    spec fn well_formed(self) -> bool {
        unique_keys(self.entries@)
    }

    /// A store that holds nothing.
    pub fn new() -> (r: Self)
        ensures
            r@ == Map::<K::V, V::V>::empty(),
    {
        let r = StorageMap { entries: Vec::new() };
        assert(r@ =~= Map::<K::V, V::V>::empty());
        r
    }

    /// The position of the entry under `key`, or the number of entries where
    /// there is none.
    fn find(&self, key: &K) -> (r: usize)
        ensures
            r <= self.entries@.len(),
            r < self.entries@.len() ==> self.entries@[r as int].0@ == key@,
            r == self.entries@.len() ==> !has_key(self.entries@, key@),
    {
        let mut i: usize = 0;
        while i < self.entries.len()
            invariant
                i <= self.entries@.len(),
                forall|j: int| 0 <= j < i ==> (#[trigger] self.entries@[j]).0@ != key@,
            decreases self.entries@.len() - i,
        {
            if self.entries[i].0.same(key) {
                return i;
            }
            i += 1;
        }
        i
    }

    /// Whether something is held under `key`.
    pub fn contains_key(&self, key: &K) -> (r: bool)
        ensures
            r == self@.contains_key(key@),
    {
        let i: usize = self.find(key);
        proof {
            use_type_invariant(self);
            if i < self.entries@.len() {
                entry_in_map(self.entries@, i as int);
            }
        }
        i < self.entries.len()
    }

    /// What is held under `key`.
    pub fn get(&self, key: &K) -> (r: Option<V>)
        ensures
            match r {
                Some(v) => self@.contains_key(key@) && v@ == self@[key@],
                None => !self@.contains_key(key@),
            },
    {
        let i: usize = self.find(key);
        proof {
            use_type_invariant(self);
            if i < self.entries@.len() {
                entry_in_map(self.entries@, i as int);
            }
        }
        if i < self.entries.len() {
            Some(self.entries[i].1.duplicate())
        } else {
            None
        }
    }

    /// Holds `value` under `key`, in place of what was held there.
    pub fn insert(&mut self, key: K, value: V)
        ensures
            final(self)@ == old(self)@.insert(key@, value@),
    {
        proof {
            use_type_invariant(&*self);
        }
        let i: usize = self.find(&key);
        let mut entries: Vec<(K, V)> = Vec::new();
        std::mem::swap(&mut entries, &mut self.entries);
        let ghost before = entries@;
        if i < entries.len() {
            entries[i] = (key, value);
            proof {
                update_entry(before, i as int, (key, value));
                assert(entries@ =~= before.update(i as int, (key, value)));
            }
        } else {
            entries.push((key, value));
            proof {
                push_entry(before, (key, value));
            }
        }
        self.entries = entries;
    }

    /// Holds nothing under `key` any more.
    pub fn remove(&mut self, key: &K)
        ensures
            final(self)@ == old(self)@.remove(key@),
    {
        proof {
            use_type_invariant(&*self);
        }
        let i: usize = self.find(key);
        let mut entries: Vec<(K, V)> = Vec::new();
        std::mem::swap(&mut entries, &mut self.entries);
        let ghost before = entries@;
        if i < entries.len() {
            entries.remove(i);
            proof {
                remove_entry(before, i as int);
                assert(entries@ =~= before.remove(i as int));
            }
        } else {
            assert(as_map(before).remove(key@) =~= as_map(before));
        }
        self.entries = entries;
    }

    /// How many entries are held. By position they are exactly what the map
    /// holds.
    pub fn len(&self) -> (r: usize)
        ensures
            r == self.count(),
            forall|i: int|
                0 <= i < self.count() ==> {
                    &&& self@.contains_key((#[trigger] self.entry(i)).0)
                    &&& self@[self.entry(i).0] == self.entry(i).1
                },
            forall|k: K::V|
                #[trigger] self@.contains_key(k) ==> exists|i: int|
                    0 <= i < self.count() && (#[trigger] self.entry(i)).0 == k,
    {
        proof {
            use_type_invariant(self);
            assert forall|i: int| 0 <= i < self.count() implies {
                &&& self@.contains_key((#[trigger] self.entry(i)).0)
                &&& self@[self.entry(i).0] == self.entry(i).1
            } by {
                entry_in_map(self.entries@, i);
            }
            assert forall|k: K::V| #[trigger] self@.contains_key(k) implies exists|i: int|
                0 <= i < self.count() && (#[trigger] self.entry(i)).0 == k by {
                let p = position(self.entries@, k);
                assert(0 <= p < self.count() && self.entry(p).0 == k);
            }
        }
        self.entries.len()
    }

    /// The number of entries.
    pub closed spec fn count(&self) -> nat {
        self.entries@.len()
    }

    /// The entry at a position.
    pub closed spec fn entry(&self, i: int) -> (K::V, V::V) {
        (self.entries@[i].0@, self.entries@[i].1@)
    }

    /// The key at a position, by reference.
    pub fn key_at(&self, i: usize) -> (r: &K)
        requires
            i < self.count(),
        ensures
            r@ == self.entry(i as int).0,
    {
        &self.entries[i].0
    }

    /// The value at a position, by reference.
    pub fn value_at(&self, i: usize) -> (r: &V)
        requires
            i < self.count(),
        ensures
            r@ == self.entry(i as int).1,
    {
        &self.entries[i].1
    }
}

impl<K: StoredKey, V: Stored> Stored for StorageMap<K, V> {
    fn duplicate(&self) -> (r: Self) {
        proof {
            use_type_invariant(self);
        }
        let mut entries: Vec<(K, V)> = Vec::new();
        let mut i: usize = 0;
        while i < self.entries.len()
            invariant
                i <= self.entries@.len(),
                entries@.len() == i,
                forall|j: int|
                    #![trigger entries@[j]]
                    #![trigger self.entries@[j]]
                    0 <= j < i ==> entries@[j].0@ == self.entries@[j].0@ && entries@[j].1@
                        == self.entries@[j].1@,
            decreases self.entries@.len() - i,
        {
            entries.push((self.entries[i].0.duplicate(), self.entries[i].1.duplicate()));
            i += 1;
        }
        proof {
            let s = self.entries@;
            let t = entries@;
            assert forall|a: int, b: int|
                0 <= a < t.len() && 0 <= b < t.len() && #[trigger] t[a].0@ == #[trigger] t[b].0@ implies a
                == b by {
                assert(s[a].0@ == s[b].0@);
            }
            assert forall|k: K::V| #[trigger] as_map(t).contains_key(k) <==> as_map(s).contains_key(k) by {
                if has_key(t, k) {
                    let a = position(t, k);
                    assert(s[a].0@ == k);
                }
                if has_key(s, k) {
                    let a = position(s, k);
                    assert(t[a].0@ == k);
                }
            }
            assert forall|k: K::V| #[trigger] as_map(t).contains_key(k) implies as_map(t)[k] == as_map(
                s,
            )[k] by {
                let a = position(t, k);
                assert(0 <= a < t.len() && t[a].0@ == k);
                entry_in_map(t, a);
                assert(s[a].0@ == k);
                entry_in_map(s, a);
            }
            assert(as_map(t) =~= as_map(s));
        }
        StorageMap { entries }
    }
}

} // verus!
