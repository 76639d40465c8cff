//! Text-keyed tables held as vectors of distinct keys, in insertion order.

use vstd::prelude::*;

verus! {

/// No key occurs twice.
pub open spec fn distinct_keys<K, V>(e: Seq<(K, V)>) -> bool {
    forall|i: int, j: int| 0 <= i < e.len() && 0 <= j < e.len() && i != j ==> #[trigger] e[i].0 != #[trigger] e[j].0
}

/// Some entry holds key `k`.
pub open spec fn has_key<K, V>(e: Seq<(K, V)>, k: K) -> bool {
    exists|i: int| 0 <= i < e.len() && #[trigger] e[i].0 == k
}

/// The map that a sequence of entries with distinct keys stands for.
pub open spec fn map_of<K, V>(e: Seq<(K, V)>) -> Map<K, V> {
    Map::new(
        |k: K| has_key(e, k),
        |k: K| e[choose|i: int| 0 <= i < e.len() && #[trigger] e[i].0 == k].1,
    )
}

pub proof fn lemma_map_of_at<K, V>(e: Seq<(K, V)>, i: int)
    requires
        distinct_keys(e),
        0 <= i < e.len(),
    ensures
        map_of(e).contains_key(e[i].0),
        map_of(e)[e[i].0] == e[i].1,
{
    assert(has_key(e, e[i].0));
    let j = choose|j: int| 0 <= j < e.len() && #[trigger] e[j].0 == e[i].0;
    assert(e[j].0 == e[i].0);
}

/// Giving an entry a new value gives its key that value in the map.
pub proof fn lemma_map_of_update<K, V>(e: Seq<(K, V)>, i: int, v: V)
    requires
        distinct_keys(e),
        0 <= i < e.len(),
    ensures
        distinct_keys(e.update(i, (e[i].0, v))),
        map_of(e.update(i, (e[i].0, v))) == map_of(e).insert(e[i].0, v),
{
    let e2 = e.update(i, (e[i].0, v));
    assert forall|a: int, b: int| 0 <= a < e2.len() && 0 <= b < e2.len() && a != b implies #[trigger] e2[a].0 != #[trigger] e2[b].0 by {
        assert(e2[a].0 == e[a].0);
        assert(e2[b].0 == e[b].0);
    }
    let m = map_of(e).insert(e[i].0, v);
    assert forall|k: K| #[trigger] map_of(e2).contains_key(k) <==> m.contains_key(k) by {
        if has_key(e, k) {
            let j = choose|j: int| 0 <= j < e.len() && #[trigger] e[j].0 == k;
            assert(e2[j].0 == k);
        }
        if has_key(e2, k) {
            let j = choose|j: int| 0 <= j < e2.len() && #[trigger] e2[j].0 == k;
            assert(e[j].0 == k);
        }
    }
    assert forall|k: K| #[trigger] map_of(e2).contains_key(k) implies map_of(e2)[k] == m[k] by {
        let j = choose|j: int| 0 <= j < e2.len() && #[trigger] e2[j].0 == k;
        lemma_map_of_at(e2, j);
        if j != i {
            lemma_map_of_at(e, j);
        }
    }
    assert(map_of(e2) =~= m);
}

pub proof fn lemma_map_of_push<K, V>(e: Seq<(K, V)>, k: K, v: V)
    requires
        distinct_keys(e),
        !has_key(e, k),
    ensures
        distinct_keys(e.push((k, v))),
        map_of(e.push((k, v))) == map_of(e).insert(k, v),
{
    let e2 = e.push((k, v));
    assert forall|a: int, b: int| 0 <= a < e2.len() && 0 <= b < e2.len() && a != b implies #[trigger] e2[a].0 != #[trigger] e2[b].0 by {
        if a < e.len() && b < e.len() {
            assert(e2[a] == e[a] && e2[b] == e[b]);
        } else if a < e.len() {
            assert(e2[a] == e[a]);
        } else {
            assert(e2[b] == e[b]);
        }
    }
    let m = map_of(e).insert(k, v);
    assert forall|x: K| #[trigger] map_of(e2).contains_key(x) <==> m.contains_key(x) by {
        if has_key(e, x) {
            let j = choose|j: int| 0 <= j < e.len() && #[trigger] e[j].0 == x;
            assert(e2[j].0 == x);
        }
        if has_key(e2, x) {
            let j = choose|j: int| 0 <= j < e2.len() && #[trigger] e2[j].0 == x;
            if j < e.len() {
                assert(e[j].0 == x);
            }
        }
        assert(e2[e.len() as int].0 == k);
    }
    assert forall|x: K| #[trigger] map_of(e2).contains_key(x) implies map_of(e2)[x] == m[x] by {
        let j = choose|j: int| 0 <= j < e2.len() && #[trigger] e2[j].0 == x;
        lemma_map_of_at(e2, j);
        if j < e.len() {
            assert(e2[j] == e[j]);
            lemma_map_of_at(e, j);
        }
    }
    assert(map_of(e2) =~= m);
}

pub proof fn lemma_map_of_remove<K, V>(e: Seq<(K, V)>, i: int)
    requires
        distinct_keys(e),
        0 <= i < e.len(),
    ensures
        distinct_keys(e.remove(i)),
        map_of(e.remove(i)) == map_of(e).remove(e[i].0),
{
    let e2 = e.remove(i);
    let k = e[i].0;
    assert forall|j: int| 0 <= j < e2.len() implies #[trigger] e2[j] == (if j < i { e[j] } else { e[j + 1] }) by {}
    assert forall|a: int, b: int| 0 <= a < e2.len() && 0 <= b < e2.len() && a != b implies #[trigger] e2[a].0 != #[trigger] e2[b].0 by {
        let a1 = if a < i { a } else { a + 1 };
        let b1 = if b < i { b } else { b + 1 };
        assert(e2[a] == e[a1]);
        assert(e2[b] == e[b1]);
    }
    let m = map_of(e).remove(k);
    assert forall|x: K| #[trigger] map_of(e2).contains_key(x) <==> m.contains_key(x) by {
        if has_key(e, x) && x != k {
            let j = choose|j: int| 0 <= j < e.len() && #[trigger] e[j].0 == x;
            let j2 = if j < i { j } else { j - 1 };
            assert(e2[j2] == e[j]);
        }
        if has_key(e2, x) {
            let j = choose|j: int| 0 <= j < e2.len() && #[trigger] e2[j].0 == x;
            let j1 = if j < i { j } else { j + 1 };
            assert(e2[j] == e[j1]);
            assert(e[j1].0 == x);
        }
    }
    assert forall|x: K| #[trigger] map_of(e2).contains_key(x) implies map_of(e2)[x] == m[x] by {
        let j = choose|j: int| 0 <= j < e2.len() && #[trigger] e2[j].0 == x;
        let j1 = if j < i { j } else { j + 1 };
        assert(e2[j] == e[j1]);
        lemma_map_of_at(e2, j);
        lemma_map_of_at(e, j1);
    }
    assert(map_of(e2) =~= m);
}

/// The entries of a string-keyed vector, keys taken by their characters.
pub open spec fn str_entries<V>(e: Seq<(String, V)>) -> Seq<(Seq<char>, V)> {
    e.map_values(|p: (String, V)| (p.0@, p.1))
}

/// A table keyed by text.
pub struct StrMap<V> {
    entries: Vec<(String, V)>,
}

impl<V> StrMap<V> {
    /// The entries, keys taken by their characters, in insertion order.
    pub closed spec fn entries(self) -> Seq<(Seq<char>, V)> {
        str_entries(self.entries@)
    }

    #[verifier::type_invariant]
    closed spec fn inv(self) -> bool {
        distinct_keys(self.entries())
    }

    /// The table as a map.
    pub open spec fn map(self) -> Map<Seq<char>, V> {
        map_of(self.entries())
    }

    /// The keys of the entries are distinct.
    pub fn keys_distinct(&self)
        ensures
            distinct_keys(self.entries()),
    {
        proof {
            use_type_invariant(self);
        }
    }

    pub fn new() -> (r: Self)
        ensures
            r.entries().len() == 0,
            r.map() == Map::<Seq<char>, V>::empty(),
    {
        let r = StrMap { entries: Vec::new() };
        assert(r.map() =~= Map::<Seq<char>, V>::empty());
        r
    }

    /// The entries, in insertion order.
    pub fn into_vec(self) -> (r: Vec<(String, V)>)
        ensures
            str_entries(r@) == self.entries(),
            distinct_keys(str_entries(r@)),
    {
        proof {
            use_type_invariant(&self);
        }
        self.entries
    }

    /// A table made of entries with distinct keys, in their order.
    pub fn from_vec(v: Vec<(String, V)>) -> (r: Self)
        requires
            distinct_keys(str_entries(v@)),
        ensures
            r.entries() == str_entries(v@),
    {
        StrMap { entries: v }
    }

    /// Number of entries.
    pub fn len(&self) -> (r: usize)
        ensures
            r == self.entries().len(),
    {
        self.entries.len()
    }

    /// Key of the `i`-th entry.
    pub fn key_at(&self, i: usize) -> (r: &String)
        requires
            i < self.entries().len(),
        ensures
            r@ == self.entries()[i as int].0,
    {
        &self.entries[i].0
    }

    /// Value of the `i`-th entry.
    pub fn value_at(&self, i: usize) -> (r: &V)
        requires
            i < self.entries().len(),
        ensures
            *r == self.entries()[i as int].1,
    {
        &self.entries[i].1
    }

    fn position(&self, k: &str) -> (r: Option<usize>)
        ensures
            match r {
                Some(i) => i < self.entries().len() && self.entries()[i as int].0 == k@,
                None => !has_key(self.entries(), k@),
            },
    {
        let mut i: usize = 0;
        while i < self.entries.len()
            invariant
                i <= self.entries.len(),
                forall|j: int| 0 <= j < i ==> #[trigger] self.entries()[j].0 != k@,
            decreases self.entries.len() - i,
        {
            if crate::text::str_eq(self.entries[i].0.as_str(), k) {
                return Some(i);
            }
            i += 1;
        }
        None
    }

    pub fn contains_key(&self, k: &str) -> (r: bool)
        ensures
            r == self.map().contains_key(k@),
    {
        proof {
            use_type_invariant(self);
        }
        match self.position(k) {
            Some(i) => {
                proof {
                    lemma_map_of_at(self.entries(), i as int);
                }
                true
            },
            None => false,
        }
    }

    pub fn get(&self, k: &str) -> (r: Option<&V>)
        ensures
            match r {
                Some(v) => self.map().contains_key(k@) && self.map()[k@] == *v,
                None => !self.map().contains_key(k@),
            },
    {
        proof {
            use_type_invariant(self);
        }
        match self.position(k) {
            Some(i) => {
                proof {
                    lemma_map_of_at(self.entries(), i as int);
                }
                Some(&self.entries[i].1)
            },
            None => None,
        }
    }

    /// Sets `k` to `v`; an existing entry keeps its place.
    pub fn insert(&mut self, k: String, v: V)
        ensures
            final(self).map() == old(self).map().insert(k@, v),
    {
        proof {
            use_type_invariant(&*self);
        }
        match self.position(k.as_str()) {
            Some(i) => {
                proof {
                    lemma_map_of_update(self.entries(), i as int, v);
                    assert(str_entries(self.entries@.update(i as int, (k, v))) =~= self.entries().update(
                        i as int,
                        (self.entries()[i as int].0, v),
                    ));
                }
                let mut entries: Vec<(String, V)> = Vec::new();
                std::mem::swap(&mut entries, &mut self.entries);
                entries.set(i, (k, v));
                self.entries = entries;
            },
            None => {
                proof {
                    lemma_map_of_push(self.entries(), k@, v);
                    assert(str_entries(self.entries@.push((k, v))) =~= self.entries().push((k@, v)));
                }
                let mut entries: Vec<(String, V)> = Vec::new();
                std::mem::swap(&mut entries, &mut self.entries);
                entries.push((k, v));
                self.entries = entries;
            },
        }
    }

    /// Removes `k` and returns its value.
    pub fn remove(&mut self, k: &str) -> (r: Option<V>)
        ensures
            final(self).map() == old(self).map().remove(k@),
            match r {
                Some(v) => old(self).map().contains_key(k@) && old(self).map()[k@] == v,
                None => !old(self).map().contains_key(k@) && *final(self) == *old(self),
            },
    {
        proof {
            use_type_invariant(&*self);
        }
        match self.position(k) {
            Some(i) => {
                proof {
                    lemma_map_of_at(self.entries(), i as int);
                    lemma_map_of_remove(self.entries(), i as int);
                    assert(str_entries(self.entries@.remove(i as int)) =~= self.entries().remove(i as int));
                }
                let mut entries: Vec<(String, V)> = Vec::new();
                std::mem::swap(&mut entries, &mut self.entries);
                let (_, v) = entries.remove(i);
                self.entries = entries;
                Some(v)
            },
            None => {
                proof {
                    assert(self.map() =~= self.map().remove(k@));
                }
                None
            },
        }
    }
}

} // verus!
