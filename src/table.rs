use vstd::prelude::*;

verus! {

/// Index of the first entry at or after `i` whose key is `k`.
pub open spec fn find_from<V>(s: Seq<(String, V)>, k: Seq<char>, i: int) -> Option<int>
    decreases s.len() - i,
{
    if i < 0 || i >= s.len() {
        None
    } else if s[i].0@ == k {
        Some(i)
    } else {
        find_from(s, k, i + 1)
    }
}

/// An index found at or after `i` is in range and holds key `k`; no earlier entry from `i` on
/// holds it.
pub proof fn lemma_find_from<V>(s: Seq<(String, V)>, k: Seq<char>, i: int)
    requires
        0 <= i,
    ensures
        match find_from(s, k, i) {
            Some(j) => i <= j < s.len() && s[j].0@ == k && forall|m: int| i <= m < j ==> s[m].0@ != k,
            None => forall|m: int| i <= m < s.len() ==> s[m].0@ != k,
        },
    decreases s.len() - i,
{
    if i < s.len() && s[i].0@ != k {
        lemma_find_from(s, k, i + 1);
    }
}

/// A small association list from names to values, in insertion order.
#[derive(Debug, Clone, PartialEq)]
pub struct Table<V> {
    pub entries: Vec<(String, V)>,
}

impl<V> Table<V> {
    /// Index of the first entry named `k`.
    pub open spec fn index_of(&self, k: Seq<char>) -> Option<int> {
        find_from(self.entries@, k, 0)
    }

    /// The value of the first entry named `k`.
    pub open spec fn lookup(&self, k: Seq<char>) -> Option<V> {
        match self.index_of(k) {
            Some(i) => Some(self.entries@[i].1),
            None => None,
        }
    }

    pub fn new() -> (r: Table<V>)
        ensures
            r.entries@.len() == 0,
    {
        Table { entries: Vec::new() }
    }

    pub fn len(&self) -> (r: usize)
        ensures
            r == self.entries@.len(),
    {
        self.entries.len()
    }

    /// Position of the first entry named `k`.
    pub fn position(&self, k: &String) -> (r: Option<usize>)
        ensures
            match r {
                Some(i) => i < self.entries@.len() && self.index_of(k@) == Some(i as int),
                None => self.index_of(k@) is None,
            },
    {
        let mut i: usize = 0;
        while i < self.entries.len()
            invariant
                i <= self.entries@.len(),
                find_from(self.entries@, k@, 0) == find_from(self.entries@, k@, i as int),
            decreases self.entries@.len() - i,
        {
            if self.entries[i].0 == *k {
                return Some(i);
            }
            i = i + 1;
        }
        None
    }

    /// The value of the first entry named `k`.
    pub fn get(&self, k: &String) -> (r: Option<&V>)
        ensures
            match r {
                Some(v) => self.lookup(k@) == Some(*v),
                None => self.lookup(k@) is None,
            },
    {
        match self.position(k) {
            Some(i) => Some(&self.entries[i].1),
            None => None,
        }
    }

    /// Replaces the value of the first entry named `k`, or appends a new entry.
    pub fn insert(&mut self, k: String, v: V)
        ensures
            match old(self).index_of(k@) {
                Some(i) => final(self).entries@ == old(self).entries@.update(i, (k, v)),
                None => final(self).entries@ == old(self).entries@.push((k, v)),
            },
    {
        let pos = self.position(&k);
        proof {
            lemma_find_from(self.entries@, k@, 0);
        }
        match pos {
            Some(i) => {
                self.entries.set(i, (k, v));
            },
            None => {
                self.entries.push((k, v));
            },
        }
    }
}

/// Changing the value of an entry, not its key, leaves every search as it was.
pub proof fn lemma_find_from_update<V>(s: Seq<(String, V)>, k: Seq<char>, i: int, e: (String, V), j: int)
    requires
        0 <= i < s.len(),
        e.0@ == s[i].0@,
        0 <= j,
    ensures
        find_from(s.update(i, e), k, j) == find_from(s, k, j),
    decreases s.len() - j,
{
    if j < s.len() {
        lemma_find_from_update(s, k, i, e, j + 1);
    }
}

} // verus!
