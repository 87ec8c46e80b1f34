//! A map from names to values that keeps its entries in insertion order.
//!
//! Inserting under a name that is present replaces that entry's value in
//! place; names are never duplicated.

use vstd::prelude::*;
use crate::text::str_eq;
use crate::text::views;

verus! {

/// First index `j >= i` whose entry carries key `k`.
pub open spec fn find_key<V>(e: Seq<(String, V)>, k: Seq<char>, i: int) -> Option<int>
    decreases e.len() - i,
{
    if i < 0 || i >= e.len() {
        None
    } else if e[i].0@ == k {
        Some(i)
    } else {
        find_key(e, k, i + 1)
    }
}

pub proof fn lemma_find_key<V>(e: Seq<(String, V)>, k: Seq<char>, i: int)
    requires
        0 <= i <= e.len(),
    ensures
        find_key(e, k, i) matches Some(j) ==> i <= j < e.len() && e[j].0@ == k,
        find_key(e, k, i) is None ==> forall|j: int| i <= j < e.len() ==> e[j].0@ != k,
    decreases e.len() - i,
{
    if i < e.len() && e[i].0@ != k {
        lemma_find_key(e, k, i + 1);
    }
}

/// The keys of the entries, as text.
pub open spec fn entry_keys<V>(e: Seq<(String, V)>) -> Seq<Seq<char>> {
    Seq::new(e.len(), |i: int| e[i].0@)
}

/// Names mapped to values, in insertion order.
#[derive(Debug, Clone)]
pub struct KeyedMap<V> {
    entries: Vec<(String, V)>,
}

impl<V> KeyedMap<V> {
    /// The names, in insertion order.
    pub closed spec fn keys(&self) -> Seq<Seq<char>> {
        entry_keys(self.entries@)
    }

    /// The value stored under `k`.
    pub closed spec fn get_spec(&self, k: Seq<char>) -> Option<V> {
        match find_key(self.entries@, k, 0) {
            Some(j) => Some(self.entries@[j].1),
            None => None,
        }
    }

    /// The values, in the order of their names.
    pub closed spec fn values(&self) -> Seq<V> {
        Seq::new(self.entries@.len(), |i: int| self.entries@[i].1)
    }

    /// Names are distinct.
    pub closed spec fn wf(&self) -> bool {
        entry_keys(self.entries@).no_duplicates()
    }

    /// The `i`-th value is the one stored under the `i`-th name.
    pub proof fn lemma_values(&self, i: int)
        requires
            self.wf(),
            0 <= i < self.keys().len(),
        ensures
            self.values().len() == self.keys().len(),
            self.get_spec(self.keys()[i]) == Some(self.values()[i]),
    {
        let k = self.keys()[i];
        lemma_find_key(self.entries@, k, 0);
        if let Some(j) = find_key(self.entries@, k, 0) {
            assert(self.keys()[j] == k);
        }
    }

    /// `k` is present exactly when it is one of the names.
    pub proof fn lemma_get_keys(&self, k: Seq<char>)
        ensures
            self.get_spec(k) is Some <==> self.keys().contains(k),
    {
        lemma_find_key(self.entries@, k, 0);
        match find_key(self.entries@, k, 0) {
            Some(j) => {
                assert(self.keys()[j] == k);
            },
            None => {
                if self.keys().contains(k) {
                    let j = choose|j: int| 0 <= j < self.keys().len() && self.keys()[j] == k;
                    assert(self.entries@[j].0@ == k);
                }
            },
        }
    }

    /// An empty map.
    pub fn new() -> (m: Self)
        ensures
            m.wf(),
            m.keys() == Seq::<Seq<char>>::empty(),
            forall|k: Seq<char>| #[trigger] m.get_spec(k) is None,
    {
        let m = KeyedMap { entries: Vec::new() };
        assert(entry_keys(m.entries@) =~= Seq::<Seq<char>>::empty());
        m
    }

    /// Number of entries.
    pub fn len(&self) -> (n: usize)
        ensures
            n == self.keys().len(),
    {
        self.entries.len()
    }

    /// Index of the entry named `name`.
    fn position(&self, name: &str) -> (r: Option<usize>)
        ensures
            match r {
                Some(j) => find_key(self.entries@, name@, 0) == Some(j as int) && j
                    < self.entries.len(),
                None => find_key(self.entries@, name@, 0) is None,
            },
    {
        let mut i: usize = 0;
        while i < self.entries.len()
            invariant
                i <= self.entries.len(),
                find_key(self.entries@, name@, 0) == find_key(self.entries@, name@, i as int),
            decreases self.entries.len() - i,
        {
            if str_eq(self.entries[i].0.as_str(), name) {
                proof {
                    lemma_find_key(self.entries@, name@, 0);
                }
                return Some(i);
            }
            i = i + 1;
        }
        proof {
            lemma_find_key(self.entries@, name@, 0);
        }
        None
    }

    /// Is a value stored under `name`?
    pub fn contains(&self, name: &str) -> (r: bool)
        ensures
            r == self.get_spec(name@) is Some,
    {
        self.position(name).is_some()
    }

    /// The value stored under `name`.
    pub fn get(&self, name: &str) -> (r: Option<&V>)
        ensures
            match r {
                Some(v) => self.get_spec(name@) == Some(*v),
                None => self.get_spec(name@) is None,
            },
    {
        match self.position(name) {
            Some(j) => Some(&self.entries[j].1),
            None => None,
        }
    }

    /// The `i`-th name and value.
    pub fn entry(&self, i: usize) -> (r: (&String, &V))
        requires
            i < self.keys().len(),
        ensures
            r.0@ == self.keys()[i as int],
            *r.1 == self.values()[i as int],
    {
        (&self.entries[i].0, &self.entries[i].1)
    }

    /// Store `value` under `name`, replacing the value of an entry of that name.
    pub fn insert(&mut self, name: &str, value: V)
        requires
            old(self).wf(),
        ensures
            final(self).wf(),
            forall|k: Seq<char>| #[trigger] final(self).get_spec(k) == if k == name@ {
                Some(value)
            } else {
                old(self).get_spec(k)
            },
            final(self).keys() == if old(self).keys().contains(name@) {
                old(self).keys()
            } else {
                old(self).keys().push(name@)
            },
    {
        let ghost old_e = self.entries@;
        proof {
            lemma_find_key(old_e, name@, 0);
        }
        match self.position(name) {
            Some(j) => {
                let key = String::from_str(name);
                self.entries.set(j, (key, value));
                let ghost new_e = self.entries@;
                assert(entry_keys(new_e) =~= entry_keys(old_e));
                assert forall|k: Seq<char>| #[trigger] find_key(new_e, k, 0) == find_key(old_e, k, 0) by {
                    lemma_find_key(new_e, k, 0);
                    lemma_find_key(old_e, k, 0);
                    if let Some(a) = find_key(old_e, k, 0) {
                        assert(entry_keys(new_e)[a] == k);
                        if let Some(b) = find_key(new_e, k, 0) {
                            assert(entry_keys(new_e)[b] == k);
                        }
                    } else if let Some(b) = find_key(new_e, k, 0) {
                        assert(entry_keys(old_e)[b] == k);
                    }
                }
                assert(old(self).keys().contains(name@)) by {
                    assert(old(self).keys()[j as int] == name@);
                }
                assert(new_e[j as int].1 == value);
                assert forall|k: Seq<char>| #[trigger] self.get_spec(k) == if k == name@ {
                    Some(value)
                } else {
                    old(self).get_spec(k)
                } by {
                    assert(find_key(new_e, k, 0) == find_key(old_e, k, 0));
                    lemma_find_key(old_e, k, 0);
                    if k == name@ {
                        assert(find_key(new_e, k, 0) == Some(j as int));
                    } else if let Some(a) = find_key(old_e, k, 0) {
                        assert(a != j);
                        assert(new_e[a] == old_e[a]);
                    }
                }
            },
            None => {
                let key = String::from_str(name);
                self.entries.push((key, value));
                let ghost new_e = self.entries@;
                assert(entry_keys(new_e) =~= entry_keys(old_e).push(name@));
                assert(!entry_keys(old_e).contains(name@));
                assert forall|k: Seq<char>| #[trigger] find_key(new_e, k, 0) == if k == name@ {
                    Some(old_e.len() as int)
                } else {
                    find_key(old_e, k, 0)
                } by {
                    lemma_find_key(new_e, k, 0);
                    lemma_find_key(old_e, k, 0);
                    if let Some(a) = find_key(old_e, k, 0) {
                        assert(entry_keys(new_e)[a] == k);
                        if let Some(b) = find_key(new_e, k, 0) {
                            assert(entry_keys(new_e)[b] == k);
                        }
                    } else if let Some(b) = find_key(new_e, k, 0) {
                        assert(entry_keys(new_e)[b] == k);
                        if b < old_e.len() {
                            assert(entry_keys(old_e)[b] == k);
                        }
                    } else {
                        assert(entry_keys(new_e)[old_e.len() as int] == name@);
                    }
                }
                assert forall|k: Seq<char>| #[trigger] self.get_spec(k) == if k == name@ {
                    Some(value)
                } else {
                    old(self).get_spec(k)
                } by {
                    lemma_find_key(old_e, k, 0);
                    if k != name@ {
                        if let Some(a) = find_key(old_e, k, 0) {
                            assert(new_e[a] == old_e[a]);
                        }
                    }
                }
            },
        }
    }

    /// All names, in insertion order.
    pub fn key_list(&self) -> (v: Vec<String>)
        ensures
            views(v@) == self.keys(),
    {
        let mut v: Vec<String> = Vec::new();
        let mut i: usize = 0;
        while i < self.entries.len()
            invariant
                i <= self.entries.len(),
                views(v@) == entry_keys(self.entries@).take(i as int),
            decreases self.entries.len() - i,
        {
            let ghost old_v = v@;
            let key = self.entries[i].0.clone();
            v.push(key);
            assert(views(v@) =~= views(old_v).push(key@));
            assert(views(v@) =~= entry_keys(self.entries@).take(i + 1));
            i = i + 1;
        }
        assert(entry_keys(self.entries@).take(i as int) =~= entry_keys(self.entries@));
        v
    }
}

} // verus!
