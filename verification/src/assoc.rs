//! Small maps held as vectors of key/value pairs with distinct keys.
//!
//! The maps of the IR are keyed by the library's identifier types; entries
//! keep insertion order, and inserting an existing key replaces its value in
//! place.

use vstd::prelude::*;
use vstd::pervasive::VecAdditionalExecFns;

verus! {

/// Keys that can be compared for equality in executable code.
pub trait KeyEq: Sized {
    /// Whether the two keys are equal.
    fn key_eq(&self, other: &Self) -> (b: bool)
        ensures
            b == (*self == *other),
    ;
}

/// A map held as key/value pairs, at most one pair per key.
#[derive(Debug, Clone)]
pub struct AssocMap<K, V> {
    /// The pairs, in insertion order.
    pub entries: Vec<(K, V)>,
}

impl<K, V> AssocMap<K, V> {
    /// No key occurs twice.
    pub open spec fn wf(&self) -> bool {
        forall|i: int, j: int|
            0 <= i < j < self.entries@.len() ==> #[trigger] self.entries@[i].0 != #[trigger] self.entries@[j].0
    }

    /// Whether `k` has a pair.
    pub open spec fn has(&self, k: K) -> bool {
        exists|i: int| 0 <= i < self.entries@.len() && #[trigger] self.entries@[i].0 == k
    }

    /// The value paired with `k`.
    pub open spec fn get_spec(&self, k: K) -> Option<V> {
        if self.has(k) {
            let i = choose|i: int| 0 <= i < self.entries@.len() && #[trigger] self.entries@[i].0 == k;
            Some(self.entries@[i].1)
        } else {
            None
        }
    }

    /// The keys in insertion order.
    pub open spec fn keys(&self) -> Seq<K> {
        self.entries@.map_values(|e: (K, V)| e.0)
    }

    /// An empty map.
    pub fn new() -> (m: Self)
        ensures
            m.wf(),
            m.entries@.len() == 0,
            forall|k: K| m.get_spec(k) is None,
    {
        AssocMap { entries: Vec::new() }
    }

    /// The number of pairs.
    pub fn len(&self) -> (n: usize)
        ensures
            n == self.entries@.len(),
    {
        self.entries.len()
    }
}

/// In a map without repeated keys, the pair at `i` gives the value of its key.
pub proof fn lemma_get_at<K, V>(m: &AssocMap<K, V>, i: int)
    requires
        m.wf(),
        0 <= i < m.entries@.len(),
    ensures
        m.get_spec(m.entries@[i].0) == Some(m.entries@[i].1),
{
    let k = m.entries@[i].0;
    assert(m.has(k));
    let j = choose|j: int| 0 <= j < m.entries@.len() && #[trigger] m.entries@[j].0 == k;
    if j != i {
        if j < i {
            assert(m.entries@[j].0 != m.entries@[i].0);
        } else {
            assert(m.entries@[i].0 != m.entries@[j].0);
        }
    }
}

impl<K: KeyEq, V> AssocMap<K, V> {
    /// The index of the pair of `k`.
    pub fn position(&self, k: &K) -> (r: Option<usize>)
        ensures
            r matches Some(i) ==> i < self.entries@.len() && self.entries@[i as int].0 == *k,
            r is None ==> !self.has(*k),
    {
        let mut i: usize = 0;
        while i < self.entries.len()
            invariant
                0 <= i <= self.entries@.len(),
                forall|j: int| 0 <= j < i ==> #[trigger] self.entries@[j].0 != *k,
            decreases self.entries@.len() - i,
        {
            if self.entries[i].0.key_eq(k) {
                return Some(i);
            }
            i = i + 1;
        }
        None
    }

    /// Whether no key occurs twice.
    pub fn keys_distinct(&self) -> (b: bool)
        ensures
            b == self.wf(),
    {
        let n = self.entries.len();
        let mut i: usize = 0;
        while i < n
            invariant
                n == self.entries@.len(),
                0 <= i <= n,
                forall|a: int, b: int| 0 <= a < i && a < b < n ==> #[trigger] self.entries@[a].0 != #[trigger] self.entries@[b].0,
            decreases n - i,
        {
            let mut j: usize = i + 1;
            while j < n
                invariant
                    n == self.entries@.len(),
                    0 <= i < n,
                    i + 1 <= j <= n,
                    forall|a: int, b: int| 0 <= a < i && a < b < n ==> #[trigger] self.entries@[a].0 != #[trigger] self.entries@[b].0,
                    forall|b: int| i < b < j ==> self.entries@[i as int].0 != #[trigger] self.entries@[b].0,
                decreases n - j,
            {
                if self.entries[i].0.key_eq(&self.entries[j].0) {
                    return false;
                }
                j = j + 1;
            }
            i = i + 1;
        }
        true
    }

    /// Whether `k` has a pair.
    pub fn contains_key(&self, k: &K) -> (b: bool)
        ensures
            b == self.has(*k),
    {
        match self.position(k) {
            Some(_) => true,
            None => false,
        }
    }

    /// The value paired with `k`.
    pub fn get(&self, k: &K) -> (r: Option<&V>)
        requires
            self.wf(),
        ensures
            r matches Some(v) ==> self.get_spec(*k) == Some(*v),
            r is None ==> self.get_spec(*k) is None,
    {
        match self.position(k) {
            Some(i) => {
                proof {
                    lemma_get_at(self, i as int);
                }
                Some(&self.entries[i].1)
            },
            None => None,
        }
    }

    /// The value paired with `k`, for change in place.
    pub fn get_mut(&mut self, k: &K) -> (r: Option<&mut V>)
        requires
            old(self).wf(),
        ensures
            r is None <==> !old(self).has(*k),
            r is None ==> *final(self) == *old(self),
            r matches Some(v) ==> old(self).get_spec(*k) == Some(*v)
                && exists|i: int| 0 <= i < old(self).entries@.len() && old(self).entries@[i].0 == *k
                    && final(self).entries@ == old(self).entries@.update(i, (*k, *final(v))),
            final(self).wf(),
            final(self).entries@.len() == old(self).entries@.len(),
            forall|j: int| 0 <= j < old(self).entries@.len() ==> #[trigger] final(self).entries@[j].0 == old(self).entries@[j].0,
    {
        match self.position(k) {
            Some(i) => {
                proof {
                    lemma_get_at(self, i as int);
                }
                Some(&mut self.entries[i].1)
            },
            None => None,
        }
    }

    /// Pairs `k` with `v`: an existing pair of `k` is replaced in place and
    /// its value returned, else the pair is appended.
    pub fn insert(&mut self, k: K, v: V) -> (old_v: Option<V>)
        requires
            old(self).wf(),
        ensures
            final(self).wf(),
            old_v == old(self).get_spec(k),
            final(self).get_spec(k) == Some(v),
            forall|x: K| x != k ==> final(self).get_spec(x) == old(self).get_spec(x),
            old(self).has(k) ==> final(self).entries@.len() == old(self).entries@.len(),
            !old(self).has(k) ==> final(self).entries@ == old(self).entries@.push((k, v)),
            forall|x: K| final(self).has(x) <==> (old(self).has(x) || x == k),
    {
        let ghost before = *self;
        match self.position(&k) {
            Some(i) => {
                proof {
                    lemma_get_at(self, i as int);
                }
                let mut pair = (k, v);
                self.entries.set_and_swap(i, &mut pair);
                let ghost after = *self;
                assert forall|a: int, b: int| 0 <= a < b < after.entries@.len() implies #[trigger] after.entries@[a].0 != #[trigger] after.entries@[b].0 by {
                    assert(before.entries@[a].0 != before.entries@[b].0);
                }
                assert forall|x: K| (after.has(x) <==> (before.has(x) || x == k)) by {
                    if before.has(x) {
                        let j = choose|j: int| 0 <= j < before.entries@.len() && #[trigger] before.entries@[j].0 == x;
                        assert(after.entries@[j].0 == x);
                    }
                    if after.has(x) {
                        let j = choose|j: int| 0 <= j < after.entries@.len() && #[trigger] after.entries@[j].0 == x;
                        assert(before.entries@[j].0 == x);
                    }
                }
                proof {
                    lemma_get_at(&after, i as int);
                }
                assert forall|x: K| x != k implies after.get_spec(x) == before.get_spec(x) by {
                    if before.has(x) {
                        let j = choose|j: int| 0 <= j < before.entries@.len() && #[trigger] before.entries@[j].0 == x;
                        lemma_get_at(&before, j);
                        lemma_get_at(&after, j);
                    }
                }
                Some(pair.1)
            },
            None => {
                self.entries.push((k, v));
                let ghost after = *self;
                let ghost n = before.entries@.len() as int;
                assert forall|a: int, b: int| 0 <= a < b < after.entries@.len() implies #[trigger] after.entries@[a].0 != #[trigger] after.entries@[b].0 by {
                    if b < n {
                        assert(before.entries@[a].0 != before.entries@[b].0);
                    } else {
                        assert(before.entries@[a].0 != k);
                    }
                }
                assert forall|x: K| (after.has(x) <==> (before.has(x) || x == k)) by {
                    if before.has(x) {
                        let j = choose|j: int| 0 <= j < before.entries@.len() && #[trigger] before.entries@[j].0 == x;
                        assert(after.entries@[j].0 == x);
                    }
                    if x == k {
                        assert(after.entries@[n].0 == x);
                    }
                    if after.has(x) {
                        let j = choose|j: int| 0 <= j < after.entries@.len() && #[trigger] after.entries@[j].0 == x;
                        if j < n {
                            assert(before.entries@[j].0 == x);
                        }
                    }
                }
                proof {
                    lemma_get_at(&after, n);
                }
                assert forall|x: K| x != k implies after.get_spec(x) == before.get_spec(x) by {
                    if before.has(x) {
                        let j = choose|j: int| 0 <= j < before.entries@.len() && #[trigger] before.entries@[j].0 == x;
                        lemma_get_at(&before, j);
                        lemma_get_at(&after, j);
                    }
                }
                None
            },
        }
    }
}


/// The index of the first pair at or after `i` whose name is `name`.
pub open spec fn first_named<V>(s: Seq<(String, V)>, name: Seq<char>, i: int) -> Option<int>
    decreases s.len() - i,
{
    if i < 0 || i >= s.len() {
        None
    } else if s[i].0@ == name {
        Some(i)
    } else {
        first_named(s, name, i + 1)
    }
}

proof fn lemma_first_named_range<V>(s: Seq<(String, V)>, name: Seq<char>, i: int)
    requires
        0 <= i,
    ensures
        first_named(s, name, i) matches Some(j) ==> i <= j < s.len() && s[j].0@ == name
            && forall|k: int| i <= k < j ==> #[trigger] s[k].0@ != name,
        first_named(s, name, i) is None ==> forall|k: int| i <= k < s.len() ==> #[trigger] s[k].0@ != name,
    decreases s.len() - i,
{
    if i < s.len() {
        lemma_first_named_range(s, name, i + 1);
    }
}

proof fn lemma_first_named_same<V, W>(s: Seq<(String, V)>, t: Seq<(String, W)>, name: Seq<char>, i: int)
    requires
        s.len() == t.len(),
        forall|k: int| 0 <= k < s.len() ==> #[trigger] s[k].0@ == t[k].0@,
    ensures
        first_named(s, name, i) == first_named(t, name, i),
    decreases s.len() - i,
{
    if 0 <= i < s.len() {
        lemma_first_named_same(s, t, name, i + 1);
    }
}

/// A map from names to values: pairs in insertion order, looked up by the
/// first pair with the name; inserting a present name replaces its value.
#[derive(Debug, Clone)]
pub struct NameMap<V> {
    /// The pairs, in insertion order.
    pub entries: Vec<(String, V)>,
}

impl<V> NameMap<V> {
    /// The value of `name`.
    pub open spec fn get_spec(&self, name: Seq<char>) -> Option<V> {
        match first_named(self.entries@, name, 0) {
            Some(i) => Some(self.entries@[i].1),
            None => None,
        }
    }

    /// An empty map.
    pub fn new() -> (m: Self)
        ensures
            m.entries@.len() == 0,
            forall|n: Seq<char>| #[trigger] m.get_spec(n) is None,
    {
        NameMap { entries: Vec::new() }
    }

    /// The index of the first pair named `name`.
    pub fn position(&self, name: &str) -> (r: Option<usize>)
        ensures
            match r {
                Some(i) => first_named(self.entries@, name@, 0) == Some(i as int) && i < self.entries@.len(),
                None => first_named(self.entries@, name@, 0) is None,
            },
    {
        proof {
            lemma_first_named_range(self.entries@, name@, 0);
        }
        let mut i: usize = 0;
        while i < self.entries.len()
            invariant
                0 <= i <= self.entries@.len(),
                first_named(self.entries@, name@, 0) == first_named(self.entries@, name@, i as int),
            decreases self.entries@.len() - i,
        {
            if crate::text::str_equal(self.entries[i].0.as_str(), name) {
                return Some(i);
            }
            i = i + 1;
        }
        None
    }

    /// The value of `name`.
    pub fn get(&self, name: &str) -> (r: Option<&V>)
        ensures
            match r {
                Some(v) => self.get_spec(name@) == Some(*v),
                None => self.get_spec(name@) is None,
            },
    {
        match self.position(name) {
            Some(i) => Some(&self.entries[i].1),
            None => None,
        }
    }

    /// Whether `name` has a value.
    pub fn contains_key(&self, name: &str) -> (b: bool)
        ensures
            b == self.get_spec(name@) is Some,
    {
        match self.position(name) {
            Some(_) => true,
            None => false,
        }
    }

    /// Gives `name` the value `v`.
    pub fn insert(&mut self, name: String, v: V)
        ensures
            final(self).get_spec(name@) == Some(v),
            forall|n: Seq<char>| n != name@ ==> #[trigger] final(self).get_spec(n) == old(self).get_spec(n),
            old(self).get_spec(name@) is None ==> final(self).entries@ == old(self).entries@.push((name, v)),
    {
        match self.position(name.as_str()) {
            Some(i) => {
                let ghost before = self.entries@;
                let ghost key = name@;
                proof {
                    lemma_first_named_range(before, key, 0);
                }
                self.entries.set(i, (name, v));
                proof {
                    assert forall|k: int| 0 <= k < before.len() implies #[trigger] before[k].0@ == self.entries@[k].0@ by {
                        if k == i as int {
                            assert(self.entries@[k].0@ == key);
                        }
                    }
                    lemma_first_named_same(before, self.entries@, key, 0);
                    assert(first_named(self.entries@, key, 0) == Some(i as int));
                    assert(self.entries@[i as int].1 == v);
                    assert forall|n: Seq<char>| n != key implies #[trigger] self.get_spec(n) == old(self).get_spec(n) by {
                        lemma_first_named_same(before, self.entries@, n, 0);
                        lemma_first_named_range(before, n, 0);
                    }
                }
            },
            None => {
                let ghost before = self.entries@;
                let ghost key = name@;
                proof {
                    lemma_first_named_range(before, key, 0);
                }
                self.entries.push((name, v));
                proof {
                    lemma_first_named_range(self.entries@, key, 0);
                    assert(self.entries@[before.len() as int].0@ == key);
                    assert(first_named(self.entries@, key, 0) == Some(before.len() as int));
                    assert forall|n: Seq<char>| n != key implies #[trigger] self.get_spec(n) == old(self).get_spec(n) by {
                        lemma_first_named_range(before, n, 0);
                        lemma_first_named_range(self.entries@, n, 0);
                        if let Some(j) = first_named(self.entries@, n, 0) {
                            if j < before.len() {
                                assert(before[j] == self.entries@[j]);
                            }
                        }
                        if let Some(j) = first_named(before, n, 0) {
                            assert(before[j] == self.entries@[j]);
                        }
                    }
                    if let Some(j) = first_named(self.entries@, key, 0) {
                        if j < before.len() {
                            assert(before[j] == self.entries@[j]);
                        }
                    }
                }
            },
        }
    }
}

} // verus!
