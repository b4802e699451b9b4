//! A small map from property names to values that keeps the order in which
//! names were first inserted.  Inserting a name that is present replaces its
//! value in place, as a map does; a new name goes to the end.
use vstd::prelude::*;

use crate::text::lit;

verus! {

/// The model of a property map: its (name, value) entries in order.
pub type PropsModel = Seq<(Seq<char>, Seq<char>)>;

/// The value of the first entry named `k`.
pub open spec fn lookup(m: PropsModel, k: Seq<char>) -> Option<Seq<char>>
    decreases m.len(),
{
    if m.len() == 0 {
        None
    } else if m[0].0 == k {
        Some(m[0].1)
    } else {
        lookup(m.drop_first(), k)
    }
}

/// `m` after inserting `v` under `k`: the first entry named `k` gets the new
/// value, or the entry is appended when there is none.
pub open spec fn insert(m: PropsModel, k: Seq<char>, v: Seq<char>) -> PropsModel
    decreases m.len(),
{
    if m.len() == 0 {
        seq![(k, v)]
    } else if m[0].0 == k {
        seq![(k, v)] + m.drop_first()
    } else {
        seq![m[0]] + insert(m.drop_first(), k, v)
    }
}

/// The names of `m` in order.
pub open spec fn keys(m: PropsModel) -> Seq<Seq<char>> {
    m.map_values(|e: (Seq<char>, Seq<char>)| e.0)
}

/// No name occurs twice.
pub open spec fn unique_keys(m: PropsModel) -> bool {
    forall|i: int, j: int| 0 <= i < j < m.len() ==> m[i].0 != m[j].0
}

/// The map that `m` stands for.
pub open spec fn as_map(m: PropsModel) -> Map<Seq<char>, Seq<char>>
    decreases m.len(),
{
    if m.len() == 0 {
        Map::empty()
    } else {
        as_map(m.drop_last()).insert(m.last().0, m.last().1)
    }
}

/// A key is found exactly where some entry holds it, and then with the value
/// of the first such entry.
pub proof fn lemma_lookup_index(m: PropsModel, k: Seq<char>)
    ensures
        lookup(m, k) is None <==> (forall|i: int| 0 <= i < m.len() ==> m[i].0 != k),
        lookup(m, k) matches Some(v) ==> exists|i: int|
            0 <= i < m.len() && m[i].0 == k && m[i].1 == v && (forall|j: int|
                0 <= j < i ==> m[j].0 != k),
    decreases m.len(),
{
    if m.len() > 0 {
        lemma_lookup_index(m.drop_first(), k);
        if m[0].0 == k {
            assert(0 <= 0 < m.len() && m[0].0 == k && m[0].1 == m[0].1);
        } else {
            if lookup(m.drop_first(), k) is None {
                assert forall|i: int| 0 <= i < m.len() implies m[i].0 != k by {
                    if i > 0 {
                        assert(m[i] == m.drop_first()[i - 1]);
                    }
                }
            } else {
                let v = lookup(m, k)->0;
                let i = choose|i: int|
                    0 <= i < m.drop_first().len() && m.drop_first()[i].0 == k
                        && m.drop_first()[i].1 == v && (forall|j: int|
                        0 <= j < i ==> m.drop_first()[j].0 != k);
                assert(m[i + 1] == m.drop_first()[i]);
                assert forall|j: int| 0 <= j < i + 1 implies m[j].0 != k by {
                    if j > 0 {
                        assert(m[j] == m.drop_first()[j - 1]);
                    }
                }
            }
        }
    }
}

/// Inserting at the index of the first entry named `k`, or appending.
pub proof fn lemma_insert_at(m: PropsModel, k: Seq<char>, v: Seq<char>, i: int)
    requires
        0 <= i <= m.len(),
        forall|j: int| 0 <= j < i ==> m[j].0 != k,
        i < m.len() ==> m[i].0 == k,
    ensures
        insert(m, k, v) == (if i < m.len() {
            m.update(i, (k, v))
        } else {
            m.push((k, v))
        }),
    decreases m.len(),
{
    if m.len() == 0 {
        assert(insert(m, k, v) =~= m.push((k, v)));
    } else if i == 0 {
        assert(insert(m, k, v) =~= m.update(0, (k, v)));
    } else {
        lemma_insert_at(m.drop_first(), k, v, i - 1);
        if i < m.len() {
            assert(insert(m, k, v) =~= m.update(i, (k, v)));
        } else {
            assert(insert(m, k, v) =~= m.push((k, v)));
        }
    }
}

/// The models of a sequence of entries.
pub open spec fn entry_views(v: Seq<(String, String)>) -> PropsModel {
    v.map_values(|e: (String, String)| (e.0@, e.1@))
}

/// A property map: names to values, in the order of first insertion.
pub struct Props {
    entries: Vec<(String, String)>,
}

impl View for Props {
    type V = PropsModel;

    closed spec fn view(&self) -> PropsModel {
        entry_views(self.entries@)
    }
}

impl Props {
    /// An empty map.
    pub fn new() -> (p: Props)
        ensures
            p@ == Seq::<(Seq<char>, Seq<char>)>::empty(),
            unique_keys(p@),
    {
        let p = Props { entries: Vec::new() };
        assert(p@ =~= Seq::<(Seq<char>, Seq<char>)>::empty());
        p
    }

    /// The number of entries.
    pub fn len(&self) -> (n: usize)
        ensures
            n == self@.len(),
    {
        self.entries.len()
    }

    /// Whether the map has no entry.
    pub fn is_empty(&self) -> (b: bool)
        ensures
            b == (self@.len() == 0),
    {
        self.entries.len() == 0
    }

    /// The name and value of the entry at position `i`.
    pub fn entry(&self, i: usize) -> (e: (&String, &String))
        requires
            i < self@.len(),
        ensures
            e.0@ == self@[i as int].0,
            e.1@ == self@[i as int].1,
    {
        (&self.entries[i].0, &self.entries[i].1)
    }

    /// The position of the first entry named `key`.
    fn position(&self, key: &String) -> (r: Option<usize>)
        ensures
            r matches Some(i) ==> i < self@.len() && self@[i as int].0 == key@ && (forall|j: int|
                0 <= j < i ==> self@[j].0 != key@),
            r is None ==> forall|j: int| 0 <= j < self@.len() ==> self@[j].0 != key@,
    {
        let mut i: usize = 0;
        while i < self.entries.len()
            invariant
                i <= self@.len(),
                self@.len() == self.entries@.len(),
                forall|j: int| 0 <= j < i ==> self@[j].0 != key@,
            decreases self@.len() - i,
        {
            if self.entries[i].0 == *key {
                return Some(i);
            }
            i = i + 1;
        }
        None
    }

    /// The value stored under `key`.
    pub fn get(&self, key: &str) -> (r: Option<&String>)
        ensures
            match r {
                Some(v) => lookup(self@, key@) == Some(v@),
                None => lookup(self@, key@) is None,
            },
    {
        let k = lit(key);
        proof {
            lemma_lookup_index(self@, key@);
        }
        match self.position(&k) {
            Some(i) => {
                proof {
                    if lookup(self@, key@) is None {
                        assert(self@[i as int].0 == key@);
                    } else {
                        let v = lookup(self@, key@)->0;
                        let j = choose|j: int|
                            0 <= j < self@.len() && self@[j].0 == key@ && self@[j].1 == v && (
                            forall|l: int| 0 <= l < j ==> self@[l].0 != key@);
                        assert(j == i);
                    }
                }
                Some(&self.entries[i].1)
            },
            None => None,
        }
    }

    /// Whether an entry is named `key`.
    pub fn contains_key(&self, key: &str) -> (b: bool)
        ensures
            b == (lookup(self@, key@) is Some),
    {
        self.get(key).is_some()
    }

    /// A copy of the map.
    pub fn copy(&self) -> (r: Props)
        ensures
            r@ == self@,
    {
        let mut entries: Vec<(String, String)> = Vec::new();
        let mut i: usize = 0;
        while i < self.entries.len()
            invariant
                i <= self.entries@.len(),
                entry_views(entries@) == self@.take(i as int),
            decreases self.entries@.len() - i,
        {
            let k = self.entries[i].0.clone();
            let v = self.entries[i].1.clone();
            let ghost before = entries@;
            let ghost e = (k@, v@);
            assert(e == self@[i as int]);
            entries.push((k, v));
            assert(entry_views(entries@) =~= entry_views(before).push(e));
            assert(self@.take(i + 1) =~= self@.take(i as int).push(e));
            i = i + 1;
        }
        let r = Props { entries };
        assert(r@ =~= self@);
        r
    }

    /// Stores `value` under `key`, in place of the value there was.
    pub fn insert(&mut self, key: String, value: String)
        ensures
            final(self)@ == insert(old(self)@, key@, value@),
            unique_keys(old(self)@) ==> unique_keys(final(self)@),
    {
        proof {
            if unique_keys(self@) {
                crate::roundtrip::lemma_insert_unique(self@, key@, value@);
            }
        }
        match self.position(&key) {
            Some(i) => {
                proof {
                    lemma_insert_at(self@, key@, value@, i as int);
                }
                let ghost kv = key@;
                let ghost vv = value@;
                self.entries.set(i, (key, value));
                assert(self@ =~= old(self)@.update(i as int, (kv, vv)));
            },
            None => {
                proof {
                    lemma_insert_at(self@, key@, value@, self@.len() as int);
                }
                let ghost kv = key@;
                let ghost vv = value@;
                self.entries.push((key, value));
                assert(self@ =~= old(self)@.push((kv, vv)));
            },
        }
    }
}

} // verus!
