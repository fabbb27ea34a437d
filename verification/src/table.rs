//! An insertion-ordered table with distinct keys: the library's stand-in for
//! the hash maps that carry attributes, index schemas and items.
use vstd::prelude::*;

verus! {

/// Keys that can be compared by their view.
pub trait KeyEq: View + Sized {
    fn same_key(&self, other: &Self) -> (r: bool)
        ensures
            r == (self@ == other@),
    ;
}

impl KeyEq for String {
    fn same_key(&self, other: &Self) -> (r: bool) {
        *self == *other
    }
}

/// The map that a sequence of entries describes when inserted in order:
/// a later entry for a key replaces an earlier one.
pub open spec fn map_of<A, B>(s: Seq<(A, B)>) -> Map<A, B>
    decreases s.len(),
{
    if s.len() == 0 {
        Map::empty()
    } else {
        map_of(s.drop_last()).insert(s.last().0, s.last().1)
    }
}

/// No key occurs twice in the sequence.
pub open spec fn distinct_keys<A, B>(s: Seq<(A, B)>) -> bool {
    forall|i: int, j: int| 0 <= i < j < s.len() ==> #[trigger] s[i].0 != #[trigger] s[j].0
}

/// The keys that occur in a map built from entries are those of the entries.
pub proof fn lemma_map_of_domain<A, B>(s: Seq<(A, B)>, k: A)
    ensures
        map_of(s).contains_key(k) <==> exists|i: int| 0 <= i < s.len() && #[trigger] s[i].0 == k,
    decreases s.len(),
{
    if s.len() > 0 {
        lemma_map_of_domain(s.drop_last(), k);
        if map_of(s).contains_key(k) && k != s.last().0 {
            let i = choose|i: int| 0 <= i < s.len() - 1 && #[trigger] s.drop_last()[i].0 == k;
            assert(s[i].0 == k);
        }
        if exists|i: int| 0 <= i < s.len() && #[trigger] s[i].0 == k {
            let i = choose|i: int| 0 <= i < s.len() && #[trigger] s[i].0 == k;
            if i < s.len() - 1 {
                assert(s.drop_last()[i].0 == k);
            }
        }
    }
}

/// With distinct keys, each entry's value is what the map holds for its key.
pub proof fn lemma_map_of_entry<A, B>(s: Seq<(A, B)>, i: int)
    requires
        distinct_keys(s),
        0 <= i < s.len(),
    ensures
        map_of(s).contains_key(s[i].0),
        map_of(s)[s[i].0] == s[i].1,
    decreases s.len(),
{
    if i < s.len() - 1 {
        let t = s.drop_last();
        assert(distinct_keys(t)) by {
            assert forall|a: int, b: int| 0 <= a < b < t.len() implies #[trigger] t[a].0 != #[trigger] t[b].0 by {
                assert(t[a] == s[a] && t[b] == s[b]);
            }
        }
        assert(t[i] == s[i]);
        lemma_map_of_entry(t, i);
        assert(s[i].0 != s[s.len() - 1].0);
    }
}

/// Replacing the value of an entry replaces the value the map holds for its key.
pub proof fn lemma_map_of_update<A, B>(s: Seq<(A, B)>, i: int, v: B)
    requires
        distinct_keys(s),
        0 <= i < s.len(),
    ensures
        distinct_keys(s.update(i, (s[i].0, v))),
        map_of(s.update(i, (s[i].0, v))) == map_of(s).insert(s[i].0, v),
{
    let t = s.update(i, (s[i].0, v));
    assert(distinct_keys(t)) by {
        assert forall|a: int, b: int| 0 <= a < b < t.len() implies #[trigger] t[a].0 != #[trigger] t[b].0 by {
            assert(t[a].0 == s[a].0 && t[b].0 == s[b].0);
        }
    }
    let m1 = map_of(t);
    let m2 = map_of(s).insert(s[i].0, v);
    assert forall|k: A| m1.contains_key(k) <==> m2.contains_key(k) by {
        lemma_map_of_domain(t, k);
        lemma_map_of_domain(s, k);
        if exists|j: int| 0 <= j < t.len() && #[trigger] t[j].0 == k {
            let j = choose|j: int| 0 <= j < t.len() && #[trigger] t[j].0 == k;
            assert(s[j].0 == k);
        }
        if exists|j: int| 0 <= j < s.len() && #[trigger] s[j].0 == k {
            let j = choose|j: int| 0 <= j < s.len() && #[trigger] s[j].0 == k;
            assert(t[j].0 == k);
        }
    }
    assert forall|k: A| #[trigger] m1.contains_key(k) implies m1[k] == m2[k] by {
        lemma_map_of_domain(t, k);
        let j = choose|j: int| 0 <= j < t.len() && #[trigger] t[j].0 == k;
        lemma_map_of_entry(t, j);
        if j != i {
            lemma_map_of_entry(s, j);
            assert(s[j] == t[j]);
        }
    }
    assert(m1 =~= m2);
}

/// A table of entries with distinct keys, kept in insertion order.
#[derive(Debug)]
pub struct Table<K: View, V: View> {
    entries: Vec<(K, V)>,
}

impl<K: View, V: View> Table<K, V> {
    /// The entries, by their views, in insertion order.
    pub closed spec fn entries_view(&self) -> Seq<(K::V, V::V)> {
        self.entries@.map_values(|e: (K, V)| (e.0@, e.1@))
    }

    #[verifier::type_invariant]
    closed spec fn keys_unique(&self) -> bool {
        distinct_keys(self.entries_view())
    }
}

impl<K: View, V: View> View for Table<K, V> {
    type V = Map<K::V, V::V>;

    closed spec fn view(&self) -> Map<K::V, V::V> {
        map_of(self.entries_view())
    }
}

impl<K: KeyEq, V: View> Table<K, V> {
    /// An empty table.
    pub fn new() -> (t: Self)
        ensures
            t@ == Map::<K::V, V::V>::empty(),
            t.entries_view() == Seq::<(K::V, V::V)>::empty(),
    {
        let t = Table { entries: Vec::new() };
        assert(t.entries_view() =~= Seq::<(K::V, V::V)>::empty());
        t
    }

    /// The number of entries.
    pub fn len(&self) -> (n: usize)
        ensures
            n == self.entries_view().len(),
            distinct_keys(self.entries_view()),
            self@ == map_of(self.entries_view()),
    {
        proof { use_type_invariant(self); }
        self.entries.len()
    }

    /// The position of the entry for `key`, if there is one.
    pub fn position(&self, key: &K) -> (r: Option<usize>)
        ensures
            match r {
                Some(i) => i < self.entries_view().len() && self.entries_view()[i as int].0 == key@,
                None => forall|i: int| 0 <= i < self.entries_view().len() ==> #[trigger] self.entries_view()[i].0 != key@,
            },
    {
        let mut i: usize = 0;
        while i < self.entries.len()
            invariant
                i <= self.entries@.len(),
                forall|j: int| 0 <= j < i ==> #[trigger] self.entries_view()[j].0 != key@,
            decreases self.entries@.len() - i,
        {
            if self.entries[i].0.same_key(key) {
                return Some(i);
            }
            i = i + 1;
        }
        None
    }

    /// Inserts `value` under `key`; an entry already there keeps its place
    /// and takes the new value, a new key goes to the end.
    pub fn insert(&mut self, key: K, value: V)
        ensures
            final(self)@ == old(self)@.insert(key@, value@),
            old(self)@.contains_key(key@) ==> final(self).entries_view().len() == old(self).entries_view().len(),
            !old(self)@.contains_key(key@) ==> final(self).entries_view() == old(self).entries_view().push((key@, value@)),
    {
        proof { use_type_invariant(&*self); }
        let ghost before = self.entries_view();
        proof { lemma_map_of_domain(before, key@); }
        let pos = self.position(&key);
        let mut entries: Vec<(K, V)> = Vec::new();
        std::mem::swap(&mut entries, &mut self.entries);
        assert(entries@.map_values(|e: (K, V)| (e.0@, e.1@)) == before);
        match pos {
            Some(i) => {
                let ghost kv = entries@[i as int].0@;
                entries.set(i, (key, value));
                proof {
                    lemma_map_of_update(before, i as int, value@);
                    assert(entries@.map_values(|e: (K, V)| (e.0@, e.1@))
                        =~= before.update(i as int, (before[i as int].0, value@)));
                }
            },
            None => {
                entries.push((key, value));
                proof {
                    assert(entries@.map_values(|e: (K, V)| (e.0@, e.1@)) =~= before.push((key@, value@)));
                    let s = before.push((key@, value@));
                    assert(s.drop_last() =~= before);
                    assert forall|a: int, b: int| 0 <= a < b < s.len() implies #[trigger] s[a].0 != #[trigger] s[b].0 by {
                        if b == s.len() - 1 {
                            assert(s[a] == before[a]);
                        } else {
                            assert(s[a] == before[a] && s[b] == before[b]);
                        }
                    }
                }
            },
        }
        self.entries = entries;
    }

    /// The value stored under `key`, if any.
    pub fn get(&self, key: &K) -> (r: Option<&V>)
        ensures
            match r {
                Some(v) => self@.contains_key(key@) && self@[key@] == v@,
                None => !self@.contains_key(key@),
            },
    {
        proof { use_type_invariant(self); lemma_map_of_domain(self.entries_view(), key@); }
        match self.position(key) {
            Some(i) => {
                proof { lemma_map_of_entry(self.entries_view(), i as int); }
                Some(&self.entries[i].1)
            },
            None => None,
        }
    }

    /// The key and value of the entry at position `i`.
    pub fn entry(&self, i: usize) -> (r: (&K, &V))
        requires
            i < self.entries_view().len(),
        ensures
            (r.0@, r.1@) == self.entries_view()[i as int],
            self@.contains_key(r.0@),
            self@[r.0@] == r.1@,
    {
        proof { use_type_invariant(self); lemma_map_of_entry(self.entries_view(), i as int); }
        (&self.entries[i].0, &self.entries[i].1)
    }

    /// The table holds what its entries say, in order.
    pub proof fn lemma_view_of_entries(&self)
        ensures
            self@ == map_of(self.entries_view()),
    {
    }

    /// Every entry's key is in the table, and each key of the table has an entry.
    pub proof fn lemma_view(&self, k: K::V)
        ensures
            self@.contains_key(k) <==> exists|i: int| 0 <= i < self.entries_view().len() && #[trigger] self.entries_view()[i].0 == k,
    {
        lemma_map_of_domain(self.entries_view(), k);
    }
}

impl<V: View> Table<String, V> {
    /// The value stored under the key spelled `name`, if any.
    pub fn get_str(&self, name: &str) -> (r: Option<&V>)
        ensures
            match r {
                Some(v) => self@.contains_key(name@) && self@[name@] == v@,
                None => !self@.contains_key(name@),
            },
    {
        let key = name.to_owned();
        self.get(&key)
    }
}

} // verus!
