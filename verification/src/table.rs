//! A small keyed table: the contracts' storage maps, held as a list of
//! entries whose keys are pairwise distinct, and seen as a finite `Map`
//! from the keys' views to the values.
use vstd::prelude::*;

verus! {

broadcast use vstd::array::group_array_axioms;

/// A key that can be compared at run time, in agreement with its view.
pub trait TableKey: View + Sized {
    fn same_key(&self, other: &Self) -> (r: bool)
        ensures
            r == (self@ == other@),
    ;
}

/// Byte-wise comparison of two fixed-size byte arrays.
pub fn bytes_equal<const N: usize>(a: &[u8; N], b: &[u8; N]) -> (r: bool)
    ensures
        r == (a@ == b@),
        r == (*a == *b),
{
    let mut i: usize = 0;
    while i < N
        invariant
            i <= N,
            a@.len() == N,
            b@.len() == N,
            forall|j: int| 0 <= j < i ==> a@[j] == b@[j],
        decreases N - i,
    {
        if a[i] != b[i] {
            assert(a@[i as int] != b@[i as int]);
            return false;
        }
        i = i + 1;
    }
    assert(a@ =~= b@);
    assert(*a =~= *b);
    true
}

impl TableKey for [u8; 20] {
    fn same_key(&self, other: &Self) -> (r: bool) {
        bytes_equal(self, other)
    }
}

impl TableKey for [u8; 32] {
    fn same_key(&self, other: &Self) -> (r: bool) {
        bytes_equal(self, other)
    }
}

impl TableKey for ([u8; 32], [u8; 20], u32) {
    fn same_key(&self, other: &Self) -> (r: bool) {
        bytes_equal(&self.0, &other.0) && bytes_equal(&self.1, &other.1) && self.2 == other.2
    }
}

impl TableKey for String {
    fn same_key(&self, other: &Self) -> (r: bool) {
        *self == *other
    }
}

/// The map that a list of entries stands for: a later entry for a key
/// shadows an earlier one.
pub open spec fn map_of<K: View, V>(s: Seq<(K, V)>) -> Map<K::V, V>
    decreases s.len(),
{
    if s.len() == 0 {
        Map::empty()
    } else {
        map_of(s.drop_last()).insert(s.last().0@, s.last().1)
    }
}

/// No two entries share a key.
pub open spec fn keys_distinct<K: View, V>(s: Seq<(K, V)>) -> bool {
    forall|i: int, j: int| #![trigger s[i], s[j]] 0 <= i < j < s.len() ==> s[i].0@ != s[j].0@
}

proof fn lemma_map_of_keys<K: View, V>(s: Seq<(K, V)>, k: K::V)
    ensures
        map_of(s).contains_key(k) <==> exists|i: int| 0 <= i < s.len() && #[trigger] s[i].0@ == k,
    decreases s.len(),
{
    if s.len() > 0 {
        let d = s.drop_last();
        lemma_map_of_keys(d, k);
        if map_of(s).contains_key(k) {
            if k == s.last().0@ {
                assert(s[s.len() - 1].0@ == k);
            } else {
                let i = choose|i: int| 0 <= i < d.len() && #[trigger] d[i].0@ == k;
                assert(s[i].0@ == k);
            }
        }
        if exists|i: int| 0 <= i < s.len() && #[trigger] s[i].0@ == k {
            let i = choose|i: int| 0 <= i < s.len() && #[trigger] s[i].0@ == k;
            if i < s.len() - 1 {
                assert(d[i].0@ == k);
            }
        }
    }
}

proof fn lemma_map_of_index<K: View, V>(s: Seq<(K, V)>, i: int)
    requires
        keys_distinct(s),
        0 <= i < s.len(),
    ensures
        map_of(s).contains_key(s[i].0@),
        map_of(s)[s[i].0@] == s[i].1,
    decreases s.len(),
{
    if i < s.len() - 1 {
        let d = s.drop_last();
        assert(keys_distinct(d)) by {
            assert forall|a: int, b: int| 0 <= a < b < d.len() implies d[a].0@ != d[b].0@ by {
                assert(s[a] == d[a] && s[b] == d[b]);
            }
        }
        lemma_map_of_index(d, i);
        assert(s[i] == d[i]);
        assert(s[i].0@ != s[s.len() - 1].0@);
    }
}

proof fn lemma_distinct_drop_last<K: View, V>(s: Seq<(K, V)>)
    requires
        keys_distinct(s),
        s.len() > 0,
    ensures
        keys_distinct(s.drop_last()),
{
    let d = s.drop_last();
    assert forall|a: int, b: int| 0 <= a < b < d.len() implies d[a].0@ != d[b].0@ by {
        assert(s[a] == d[a] && s[b] == d[b]);
    }
}

proof fn lemma_map_of_update<K: View, V>(s: Seq<(K, V)>, i: int, e: (K, V))
    requires
        keys_distinct(s),
        0 <= i < s.len(),
        e.0@ == s[i].0@,
    ensures
        keys_distinct(s.update(i, e)),
        map_of(s.update(i, e)) == map_of(s).insert(e.0@, e.1),
    decreases s.len(),
{
    let u = s.update(i, e);
    assert forall|a: int, b: int| 0 <= a < b < u.len() implies u[a].0@ != u[b].0@ by {
        assert(s[a] == u[a] || a == i);
        assert(s[b] == u[b] || b == i);
    }
    let d = s.drop_last();
    lemma_distinct_drop_last(s);
    if i == s.len() - 1 {
        assert(u.drop_last() =~= d);
        assert(map_of(u) =~= map_of(s).insert(e.0@, e.1));
    } else {
        lemma_map_of_update(d, i, e);
        assert(u.drop_last() =~= d.update(i, e));
        assert(s.last().0@ != e.0@);
        assert(map_of(u) =~= map_of(s).insert(e.0@, e.1));
    }
}

proof fn lemma_map_of_remove<K: View, V>(s: Seq<(K, V)>, i: int)
    requires
        keys_distinct(s),
        0 <= i < s.len(),
    ensures
        keys_distinct(s.remove(i)),
        map_of(s.remove(i)) == map_of(s).remove(s[i].0@),
    decreases s.len(),
{
    let r = s.remove(i);
    assert forall|a: int, b: int| 0 <= a < b < r.len() implies r[a].0@ != r[b].0@ by {
        if a < i {
            assert(r[a] == s[a]);
        } else {
            assert(r[a] == s[a + 1]);
        }
        if b < i {
            assert(r[b] == s[b]);
        } else {
            assert(r[b] == s[b + 1]);
        }
    }
    let d = s.drop_last();
    lemma_distinct_drop_last(s);
    if i == s.len() - 1 {
        assert(r =~= d);
        lemma_map_of_keys(d, s[i].0@);
        if map_of(d).contains_key(s[i].0@) {
            let j = choose|j: int| 0 <= j < d.len() && #[trigger] d[j].0@ == s[i].0@;
            assert(d[j] == s[j]);
        }
        assert(map_of(r) =~= map_of(s).remove(s[i].0@));
    } else {
        lemma_map_of_remove(d, i);
        assert(r.drop_last() =~= d.remove(i));
        assert(r.last() == s.last());
        assert(s.last().0@ != s[i].0@);
        assert(map_of(r) =~= map_of(s).remove(s[i].0@));
    }
}

/// A table of entries with pairwise distinct keys.
pub struct Table<K, V> {
    entries: Vec<(K, V)>,
}

impl<K: TableKey, V> View for Table<K, V> {
    type V = Map<K::V, V>;

    closed spec fn view(&self) -> Map<K::V, V> {
        map_of(self.entries@)
    }
}

impl<K: TableKey, V> Table<K, V> {
    /// The table's well-formedness: no key occurs twice.
    pub closed spec fn wf(&self) -> bool {
        keys_distinct(self.entries@)
    }

    /// An empty table.
    pub fn new() -> (t: Self)
        ensures
            t.wf(),
            t@ == Map::<K::V, V>::empty(),
    {
        Table { entries: Vec::new() }
    }

    fn find(&self, k: &K) -> (r: Option<usize>)
        requires
            self.wf(),
        ensures
            match r {
                Some(i) => {
                    &&& i < self.entries@.len()
                    &&& self.entries@[i as int].0@ == k@
                    &&& self@.contains_key(k@)
                    &&& self@[k@] == self.entries@[i as int].1
                },
                None => !self@.contains_key(k@),
            },
    {
        let mut i: usize = 0;
        while i < self.entries.len()
            invariant
                self.wf(),
                i <= self.entries@.len(),
                forall|j: int| 0 <= j < i ==> #[trigger] self.entries@[j].0@ != k@,
            decreases self.entries@.len() - i,
        {
            if self.entries[i].0.same_key(k) {
                proof {
                    lemma_map_of_index(self.entries@, i as int);
                }
                return Some(i);
            }
            i = i + 1;
        }
        proof {
            lemma_map_of_keys(self.entries@, k@);
        }
        None
    }

    /// The value stored for the key, if any.
    pub fn get(&self, k: &K) -> (r: Option<&V>)
        requires
            self.wf(),
        ensures
            match r {
                Some(v) => self@.contains_key(k@) && *v == self@[k@],
                None => !self@.contains_key(k@),
            },
    {
        match self.find(k) {
            Some(i) => Some(&self.entries[i].1),
            None => None,
        }
    }

    /// Stores the value for the key, replacing what was there.
    pub fn insert(&mut self, k: K, v: V)
        requires
            old(self).wf(),
        ensures
            final(self).wf(),
            final(self)@ == old(self)@.insert(k@, v),
    {
        match self.find(&k) {
            Some(i) => {
                proof {
                    lemma_map_of_update(self.entries@, i as int, (k, v));
                }
                self.entries.set(i, (k, v));
            },
            None => {
                proof {
                    lemma_map_of_keys(self.entries@, k@);
                    let s = self.entries@.push((k, v));
                    assert(s.drop_last() =~= self.entries@);
                    assert forall|a: int, b: int| 0 <= a < b < s.len() implies s[a].0@ != s[b].0@ by {
                        assert(s[a] == self.entries@[a]);
                        if b < s.len() - 1 {
                            assert(s[b] == self.entries@[b]);
                        }
                    }
                }
                self.entries.push((k, v));
            },
        }
    }

    /// Removes the key's entry, if there is one.
    pub fn remove(&mut self, k: &K)
        requires
            old(self).wf(),
        ensures
            final(self).wf(),
            final(self)@ == old(self)@.remove(k@),
    {
        match self.find(k) {
            Some(i) => {
                proof {
                    lemma_map_of_remove(self.entries@, i as int);
                }
                let _ = self.entries.remove(i);
            },
            None => {
                assert(self@.remove(k@) =~= self@);
            },
        }
    }
}

} // verus!
