//! A finite map kept as a list of entries with pairwise different keys.
//!
//! The entries stay in the order in which their keys were first inserted, so
//! walking a table always gives the same order.
use vstd::prelude::*;

verus! {

/// A type whose values can be looked up in a [`Table`]: two keys are the same
/// when their identities are.
pub trait TableKey: Sized {
    /// The mathematical identity of a key.
    type Id;

    /// What the key stands for.
    spec fn id(&self) -> Self::Id;

    /// Whether two keys stand for the same thing.
    fn same_key(&self, other: &Self) -> (r: bool)
        ensures
            r == (self.id() == other.id()),
    ;
}

impl TableKey for String {
    type Id = Seq<char>;

    open spec fn id(&self) -> Seq<char> {
        self@
    }

    fn same_key(&self, other: &String) -> (r: bool) {
        *self == *other
    }
}

impl TableKey for u8 {
    type Id = u8;

    open spec fn id(&self) -> u8 {
        *self
    }

    fn same_key(&self, other: &u8) -> (r: bool) {
        *self == *other
    }
}

impl TableKey for u64 {
    type Id = u64;

    open spec fn id(&self) -> u64 {
        *self
    }

    fn same_key(&self, other: &u64) -> (r: bool) {
        *self == *other
    }
}

impl TableKey for (i32, i32, i32) {
    type Id = (i32, i32, i32);

    open spec fn id(&self) -> (i32, i32, i32) {
        *self
    }

    fn same_key(&self, other: &(i32, i32, i32)) -> (r: bool) {
        self.0 == other.0 && self.1 == other.1 && self.2 == other.2
    }
}

/// A map from keys to values.
#[derive(Debug)]
pub struct Table<K, V> {
    entries: Vec<(K, V)>,
}

/// The entry list holds the identity `id` at position `i`.
pub open spec fn at<K: TableKey, V>(s: Seq<(K, V)>, id: K::Id, i: int) -> bool {
    0 <= i < s.len() && s[i].0.id() == id
}

/// The map that a list of entries stands for.
pub open spec fn map_of<K: TableKey, V>(s: Seq<(K, V)>) -> Map<K::Id, V> {
    Map::new(|id: K::Id| exists|i: int| at(s, id, i), |id: K::Id| s[choose|i: int| at(s, id, i)].1)
}

/// No identity occurs twice.
pub open spec fn distinct<K: TableKey, V>(s: Seq<(K, V)>) -> bool {
    forall|i: int, j: int|
        #![trigger s[i], s[j]]
        0 <= i < j < s.len() ==> s[i].0.id() != s[j].0.id()
}

/// In a list of distinct keys each entry is what the map holds for its key.
pub proof fn lemma_entry<K: TableKey, V>(s: Seq<(K, V)>, i: int)
    requires
        distinct(s),
        0 <= i < s.len(),
    ensures
        map_of(s).dom().contains(s[i].0.id()),
        map_of(s)[s[i].0.id()] == s[i].1,
{
    let id = s[i].0.id();
    assert(at(s, id, i));
    let j = choose|j: int| at(s, id, j);
    assert(at(s, id, j));
    assert(i == j);
}

/// Each identity of the map stands at some position of the list.
pub proof fn lemma_position<K: TableKey, V>(s: Seq<(K, V)>, id: K::Id) -> (i: int)
    requires
        distinct(s),
        map_of(s).dom().contains(id),
    ensures
        0 <= i < s.len(),
        s[i].0.id() == id,
        map_of(s)[id] == s[i].1,
{
    let i = choose|i: int| at(s, id, i);
    assert(at(s, id, i));
    i
}

proof fn lemma_push<K: TableKey, V>(s: Seq<(K, V)>, k: K, v: V)
    requires
        distinct(s),
        !map_of(s).dom().contains(k.id()),
    ensures
        distinct(s.push((k, v))),
        map_of(s.push((k, v))) == map_of(s).insert(k.id(), v),
{
    let t = s.push((k, v));
    assert forall|i: int, j: int| #![trigger t[i], t[j]] 0 <= i < j < t.len() implies t[i].0.id()
        != t[j].0.id() by {
        if j == s.len() {
            assert(at(s, t[i].0.id(), i));
        } else {
            assert(s[i].0.id() != s[j].0.id());
        }
    }
    let u = map_of(s).insert(k.id(), v);
    assert forall|id: K::Id|
        #![trigger map_of(t).dom().contains(id)]
        #![trigger map_of(t)[id]]
        map_of(t).dom().contains(id) == u.dom().contains(id) && (map_of(t).dom().contains(id)
            ==> map_of(t)[id] == u[id]) by {
        if map_of(t).dom().contains(id) {
            let i = lemma_position(t, id);
            if i < s.len() {
                lemma_entry(s, i);
            } else {
                lemma_entry(t, i);
            }
        }
        if map_of(s).dom().contains(id) {
            let i = lemma_position(s, id);
            assert(t[i] == s[i]);
            assert(at(t, id, i));
        }
        if id == k.id() {
            assert(at(t, id, s.len() as int));
        }
    }
    assert(map_of(t).dom() =~= u.dom());
    assert(map_of(t) =~= u);
}

proof fn lemma_update<K: TableKey, V>(s: Seq<(K, V)>, i: int, k: K, v: V)
    requires
        distinct(s),
        0 <= i < s.len(),
        s[i].0.id() == k.id(),
    ensures
        distinct(s.update(i, (k, v))),
        map_of(s.update(i, (k, v))) == map_of(s).insert(k.id(), v),
{
    let t = s.update(i, (k, v));
    assert forall|a: int, b: int| #![trigger t[a], t[b]] 0 <= a < b < t.len() implies t[a].0.id()
        != t[b].0.id() by {
        assert(s[a].0.id() != s[b].0.id());
    }
    let u = map_of(s).insert(k.id(), v);
    assert forall|id: K::Id|
        #![trigger map_of(t).dom().contains(id)]
        #![trigger map_of(t)[id]]
        map_of(t).dom().contains(id) == u.dom().contains(id) && (map_of(t).dom().contains(id)
            ==> map_of(t)[id] == u[id]) by {
        if map_of(t).dom().contains(id) {
            let j = lemma_position(t, id);
            if j == i {
            } else {
                lemma_entry(s, j);
                assert(s[i].0.id() != s[j].0.id()) by {
                    if i < j {
                        assert(s[i].0.id() != s[j].0.id());
                    } else {
                        assert(s[j].0.id() != s[i].0.id());
                    }
                }
            }
        }
        if map_of(s).dom().contains(id) {
            let j = lemma_position(s, id);
            assert(t[j].0.id() == id);
            assert(at(t, id, j));
        }
        if id == k.id() {
            assert(at(t, id, i));
        }
    }
    assert(map_of(t).dom() =~= u.dom());
    assert(map_of(t) =~= u);
}

proof fn lemma_remove<K: TableKey, V>(s: Seq<(K, V)>, i: int)
    requires
        distinct(s),
        0 <= i < s.len(),
    ensures
        distinct(s.remove(i)),
        map_of(s.remove(i)) == map_of(s).remove(s[i].0.id()),
{
    let t = s.remove(i);
    let k = s[i].0.id();
    assert forall|a: int, b: int| #![trigger t[a], t[b]] 0 <= a < b < t.len() implies t[a].0.id()
        != t[b].0.id() by {
        let a2 = if a < i { a } else { a + 1 };
        let b2 = if b < i { b } else { b + 1 };
        assert(t[a] == s[a2] && t[b] == s[b2]);
        assert(s[a2].0.id() != s[b2].0.id());
    }
    let u = map_of(s).remove(k);
    assert forall|id: K::Id|
        #![trigger map_of(t).dom().contains(id)]
        #![trigger map_of(t)[id]]
        map_of(t).dom().contains(id) == u.dom().contains(id) && (map_of(t).dom().contains(id)
            ==> map_of(t)[id] == u[id]) by {
        if map_of(t).dom().contains(id) {
            let j = lemma_position(t, id);
            let j2 = if j < i { j } else { j + 1 };
            assert(t[j] == s[j2]);
            lemma_entry(s, j2);
            if j2 < i {
                assert(s[j2].0.id() != s[i].0.id());
            } else {
                assert(s[i].0.id() != s[j2].0.id());
            }
        }
        if id != k && map_of(s).dom().contains(id) {
            let j = lemma_position(s, id);
            let j2 = if j < i { j } else { j - 1 };
            assert(t[j2] == s[j]);
            assert(at(t, id, j2));
        }
    }
    assert(map_of(t).dom() =~= u.dom());
    assert(map_of(t) =~= u);
}

/// A list without repeated keys stands for a map with as many keys.
pub proof fn lemma_count<K: TableKey, V>(s: Seq<(K, V)>)
    requires
        distinct(s),
    ensures
        map_of(s).dom().finite(),
        map_of(s).dom().len() == s.len(),
    decreases s.len(),
{
    if s.len() == 0 {
        assert(map_of(s).dom() =~= Set::empty());
    } else {
        let before = s.drop_last();
        let key = s.last().0;
        assert(s =~= before.push(s.last()));
        assert(distinct(before)) by {
            assert forall|i: int, j: int|
                #![trigger before[i], before[j]]
                0 <= i < j < before.len() implies before[i].0.id() != before[j].0.id() by {
                assert(s[i] == before[i] && s[j] == before[j]);
            }
        }
        assert(!map_of(before).dom().contains(key.id())) by {
            if map_of(before).dom().contains(key.id()) {
                let i = lemma_position(before, key.id());
                assert(s[i] == before[i]);
            }
        }
        lemma_count(before);
        lemma_push(before, key, s.last().1);
        assert(map_of(s).dom() =~= map_of(before).dom().insert(key.id()));
    }
}

impl<K: TableKey, V> View for Table<K, V> {
    type V = Map<K::Id, V>;

    closed spec fn view(&self) -> Map<K::Id, V> {
        map_of(self.entries@)
    }
}

impl<K: TableKey, V> Table<K, V> {
    /// The entries in the order of the table.
    pub closed spec fn entries(&self) -> Seq<(K, V)> {
        self.entries@
    }

    /// The keys of the table are pairwise different.
    pub closed spec fn wf(&self) -> bool {
        distinct(self.entries@)
    }

    /// A table holds what its list of entries says.
    pub proof fn lemma_wf(&self)
        ensures
            self.wf() == distinct(self.entries()),
            self@ == map_of(self.entries()),
    {
    }

    /// A table has as many entries as it holds keys.
    pub proof fn lemma_len(&self)
        requires
            self.wf(),
        ensures
            self@.dom().finite(),
            self@.dom().len() == self.entries().len(),
    {
        lemma_count(self.entries@);
    }

    /// The empty table.
    pub fn new() -> (r: Table<K, V>)
        ensures
            r.wf(),
            r@ == Map::<K::Id, V>::empty(),
            r.entries() == Seq::<(K, V)>::empty(),
    {
        let r: Table<K, V> = Table { entries: Vec::new() };
        assert(r@ =~= Map::<K::Id, V>::empty());
        r
    }

    /// The number of entries.
    pub fn len(&self) -> (n: usize)
        ensures
            n as nat == self.entries().len(),
    {
        self.entries.len()
    }

    /// The key of the entry at position `i`.
    pub fn key_at(&self, i: usize) -> (k: &K)
        requires
            i < self.entries().len(),
        ensures
            *k == self.entries()[i as int].0,
    {
        &self.entries[i].0
    }

    /// The value of the entry at position `i`.
    pub fn value_at(&self, i: usize) -> (v: &V)
        requires
            i < self.entries().len(),
        ensures
            *v == self.entries()[i as int].1,
    {
        &self.entries[i].1
    }

    /// The position of a key, if the table holds it.
    pub fn find(&self, key: &K) -> (r: Option<usize>)
        requires
            self.wf(),
        ensures
            r is Some <==> self@.dom().contains(key.id()),
            r matches Some(i) ==> i < self.entries().len() && self.entries()[i as int].0.id()
                == key.id() && self@[key.id()] == self.entries()[i as int].1,
    {
        let mut i: usize = 0;
        while i < self.entries.len()
            invariant
                i <= self.entries@.len(),
                self.wf(),
                forall|j: int| #![trigger self.entries@[j]] 0 <= j < i ==> self.entries@[j].0.id() != key.id(),
            decreases self.entries@.len() - i,
        {
            if self.entries[i].0.same_key(key) {
                proof {
                    lemma_entry(self.entries@, i as int);
                }
                return Some(i);
            }
            i += 1;
        }
        proof {
            if self@.dom().contains(key.id()) {
                let j = lemma_position(self.entries@, key.id());
                assert(self.entries@[j].0.id() == key.id());
            }
        }
        None
    }

    /// Whether the table holds the key.
    pub fn contains_key(&self, key: &K) -> (r: bool)
        requires
            self.wf(),
        ensures
            r == self@.dom().contains(key.id()),
    {
        self.find(key).is_some()
    }

    /// The value of a key, if the table holds it.
    pub fn get(&self, key: &K) -> (r: Option<&V>)
        requires
            self.wf(),
        ensures
            r is Some <==> self@.dom().contains(key.id()),
            r matches Some(v) ==> *v == self@[key.id()],
    {
        match self.find(key) {
            Some(i) => Some(&self.entries[i].1),
            None => None,
        }
    }

    /// Sets the value of a key and returns the one it had.
    pub fn insert(&mut self, key: K, value: V) -> (r: Option<V>)
        requires
            old(self).wf(),
        ensures
            final(self).wf(),
            final(self)@ == old(self)@.insert(key.id(), value),
            r is Some <==> old(self)@.dom().contains(key.id()),
            r matches Some(v) ==> v == old(self)@[key.id()],
    {
        match self.find(&key) {
            Some(i) => {
                proof {
                    lemma_update(self.entries@, i as int, key, value);
                }
                let mut e: (K, V) = (key, value);
                std::mem::swap(&mut e, &mut self.entries[i]);
                Some(e.1)
            },
            None => {
                proof {
                    lemma_push(self.entries@, key, value);
                }
                self.entries.push((key, value));
                None
            },
        }
    }

    /// Sets the value of a key that the table does not hold yet; leaves the
    /// table as it is otherwise. Says whether the value was set.
    pub fn insert_new(&mut self, key: K, value: V) -> (r: bool)
        requires
            old(self).wf(),
        ensures
            final(self).wf(),
            r == !old(self)@.dom().contains(key.id()),
            r ==> final(self)@ == old(self)@.insert(key.id(), value) && final(self).entries()
                == old(self).entries().push((key, value)),
            !r ==> *final(self) == *old(self),
    {
        if self.contains_key(&key) {
            false
        } else {
            proof {
                lemma_push(self.entries@, key, value);
            }
            self.entries.push((key, value));
            true
        }
    }

    /// Takes the entry at position `i` out.
    pub fn remove_at(&mut self, i: usize) -> (r: (K, V))
        requires
            old(self).wf(),
            i < old(self).entries().len(),
        ensures
            final(self).wf(),
            r == old(self).entries()[i as int],
            final(self).entries() == old(self).entries().remove(i as int),
            final(self)@ == old(self)@.remove(r.0.id()),
    {
        proof {
            lemma_remove(self.entries@, i as int);
        }
        self.entries.remove(i)
    }

    /// Takes the value of a key out of the table.
    pub fn remove(&mut self, key: &K) -> (r: Option<V>)
        requires
            old(self).wf(),
        ensures
            final(self).wf(),
            final(self)@ == old(self)@.remove(key.id()),
            r is Some <==> old(self)@.dom().contains(key.id()),
            r matches Some(v) ==> v == old(self)@[key.id()],
            r is None ==> *final(self) == *old(self),
    {
        match self.find(key) {
            Some(i) => {
                let e: (K, V) = self.remove_at(i);
                Some(e.1)
            },
            None => {
                assert(self@.remove(key.id()) =~= self@);
                None
            },
        }
    }
}

impl Clone for Table<String, u32> {
    fn clone(&self) -> (r: Table<String, u32>)
        ensures
            r.entries() == self.entries(),
            r@ == self@,
            r.wf() == self.wf(),
    {
        let mut entries: Vec<(String, u32)> = Vec::new();
        let mut i: usize = 0;
        while i < self.entries.len()
            invariant
                i <= self.entries@.len(),
                entries@ == self.entries@.take(i as int),
            decreases self.entries@.len() - i,
        {
            let e: &(String, u32) = &self.entries[i];
            entries.push((e.0.clone(), e.1));
            assert(entries@ =~= self.entries@.take(i as int + 1));
            i += 1;
        }
        assert(entries@ =~= self.entries@);
        Table { entries }
    }
}

/// A list of entries with different keys is a map from each key to the value
/// that stands beside it.
pub proof fn law_map_of<K: TableKey, V>(s: Seq<(K, V)>, id: K::Id, i: int)
    requires
        distinct(s),
    ensures
        0 <= i < s.len() ==> map_of(s).dom().contains(s[i].0.id()) && map_of(s)[s[i].0.id()]
            == s[i].1,
        map_of(s).dom().contains(id) <==> exists|j: int|
            #![trigger s[j]]
            0 <= j < s.len() && s[j].0.id() == id,
        forall|j: int, k: int|
            #![trigger s[j], s[k]]
            0 <= j < s.len() && 0 <= k < s.len() && s[j].0.id() == s[k].0.id() ==> j == k,
{
    assert forall|j: int, k: int|
        #![trigger s[j], s[k]]
        0 <= j < s.len() && 0 <= k < s.len() && s[j].0.id() == s[k].0.id() implies j == k by {
        if j < k {
            assert(s[j].0.id() != s[k].0.id());
        }
        if k < j {
            assert(s[k].0.id() != s[j].0.id());
        }
    }
    if 0 <= i < s.len() {
        let d = s[i].0.id();
        assert(at(s, d, i));
        let j = choose|j: int| at(s, d, j);
        assert(at(s, d, j));
        assert(s[j].0.id() == s[i].0.id());
    }
    if map_of(s).dom().contains(id) {
        let j = choose|j: int| at(s, id, j);
        assert(0 <= j < s.len() && s[j].0.id() == id);
    }
    if exists|j: int| #![trigger s[j]] 0 <= j < s.len() && s[j].0.id() == id {
        let j = choose|j: int| #![trigger s[j]] 0 <= j < s.len() && s[j].0.id() == id;
        assert(at(s, id, j));
    }
}

/// A text is found by its characters, and a number or a place by itself.
pub proof fn law_table_keys(s: String, n: u8, m: u64, p: (i32, i32, i32))
    ensures
        s.id() == s@,
        n.id() == n,
        m.id() == m,
        p.id() == p,
{
}

} // verus!
