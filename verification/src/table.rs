//! A small map from keys to values, kept in the order of first insertion.
use crate::ast::Type;
use crate::text::Dup;
use vstd::prelude::*;

verus! {

/// Keys: values that can be compared by their models.
pub trait Key: DeepView + Sized {
    fn same_key(&self, other: &Self) -> (r: bool)
        ensures
            r == (self.deep_view() == other.deep_view()),
    ;
}

impl Key for String {
    fn same_key(&self, other: &Self) -> (r: bool) {
        *self == *other
    }
}

impl Key for Type {
    fn same_key(&self, other: &Self) -> (r: bool) {
        self.same(other)
    }
}

impl<T: Key> Key for Vec<T> {
    fn same_key(&self, other: &Self) -> (r: bool) {
        if self.len() != other.len() {
            assert(self.deep_view().len() != other.deep_view().len());
            return false;
        }
        let mut i: usize = 0;
        while i < self.len()
            invariant
                i <= self@.len(),
                self@.len() == other@.len(),
                forall|j: int| 0 <= j < i ==> (#[trigger] self@[j]).deep_view() == other@[j].deep_view(),
            decreases self@.len() - i,
        {
            if !self[i].same_key(&other[i]) {
                assert(self.deep_view()[i as int] != other.deep_view()[i as int]);
                return false;
            }
            i = i + 1;
        }
        assert(self.deep_view() =~= other.deep_view());
        true
    }
}

impl<A: Key, B: Key> Key for (A, B) {
    fn same_key(&self, other: &Self) -> (r: bool) {
        self.0.same_key(&other.0) && self.1.same_key(&other.1)
    }
}

/// The map that a list of entries stands for: of two entries with one key the
/// later one counts.
pub open spec fn entries_map<K: DeepView, V: DeepView>(s: Seq<(K, V)>) -> Map<K::V, V::V>
    decreases s.len(),
{
    if s.len() == 0 {
        Map::empty()
    } else {
        entries_map(s.drop_last()).insert(s.last().0.deep_view(), s.last().1.deep_view())
    }
}

/// A map from keys to values.
#[derive(Debug)]
pub struct Table<K, V> {
    entries: Vec<(K, V)>,
}

impl<K: DeepView, V: DeepView> View for Table<K, V> {
    type V = Map<K::V, V::V>;

    closed spec fn view(&self) -> Map<K::V, V::V> {
        entries_map(self.entries@)
    }
}

proof fn lemma_entries_models<K: DeepView, V: DeepView>(s: Seq<(K, V)>, t: Seq<(K, V)>)
    requires
        s.len() == t.len(),
        forall|j: int|
            0 <= j < s.len() ==> (#[trigger] s[j]).0.deep_view() == t[j].0.deep_view()
                && s[j].1.deep_view() == t[j].1.deep_view(),
    ensures
        entries_map(s) == entries_map(t),
    decreases s.len(),
{
    if s.len() > 0 {
        assert forall|j: int| 0 <= j < s.drop_last().len() implies (#[trigger] s.drop_last()[j]).0.deep_view()
            == t.drop_last()[j].0.deep_view() && s.drop_last()[j].1.deep_view()
            == t.drop_last()[j].1.deep_view() by {
            assert(s.drop_last()[j] == s[j]);
        }
        lemma_entries_models(s.drop_last(), t.drop_last());
        assert(s[s.len() - 1].0.deep_view() == t[s.len() - 1].0.deep_view());
    }
}

impl<K: Key + Dup, V: Dup> Table<K, V> {
    /// A copy of the table.
    pub fn copy(&self) -> (r: Self)
        ensures
            r@ == self@,
    {
        let r = Table { entries: self.entries.dup() };
        proof {
            assert(r.entries.deep_view().len() == r.entries@.len());
            assert(self.entries.deep_view().len() == self.entries@.len());
            assert forall|j: int| 0 <= j < self.entries@.len() implies (#[trigger] r.entries@[j]).0.deep_view()
                == self.entries@[j].0.deep_view() && r.entries@[j].1.deep_view()
                == self.entries@[j].1.deep_view() by {
                assert(r.entries.deep_view()[j] == r.entries@[j].deep_view());
                assert(self.entries.deep_view()[j] == self.entries@[j].deep_view());
            }
            lemma_entries_models(r.entries@, self.entries@);
        }
        r
    }
}

/// A map from names to values.
pub type NameTable<V> = Table<String, V>;

proof fn lemma_entries_none<K: DeepView, V: DeepView>(s: Seq<(K, V)>, k: K::V)
    requires
        forall|j: int| 0 <= j < s.len() ==> (#[trigger] s[j]).0.deep_view() != k,
    ensures
        !entries_map(s).contains_key(k),
    decreases s.len(),
{
    if s.len() > 0 {
        assert forall|j: int| 0 <= j < s.drop_last().len() implies (#[trigger] s.drop_last()[j]).0.deep_view() != k by {
            assert(s.drop_last()[j] == s[j]);
        }
        lemma_entries_none(s.drop_last(), k);
    }
}

proof fn lemma_entries_last<K: DeepView, V: DeepView>(s: Seq<(K, V)>, i: int)
    requires
        0 <= i < s.len(),
        forall|j: int| i < j < s.len() ==> (#[trigger] s[j]).0.deep_view() != s[i].0.deep_view(),
    ensures
        entries_map(s).contains_key(s[i].0.deep_view()),
        entries_map(s)[s[i].0.deep_view()] == s[i].1.deep_view(),
    decreases s.len(),
{
    if i < s.len() - 1 {
        assert forall|j: int| i < j < s.drop_last().len() implies (#[trigger] s.drop_last()[j]).0.deep_view()
            != s[i].0.deep_view() by {
            assert(s.drop_last()[j] == s[j]);
        }
        lemma_entries_last(s.drop_last(), i);
        assert(s[s.len() - 1].0.deep_view() != s[i].0.deep_view());
    }
}

proof fn lemma_entries_update<K: DeepView, V: DeepView>(s: Seq<(K, V)>, i: int, e: (K, V))
    requires
        0 <= i < s.len(),
        e.0.deep_view() == s[i].0.deep_view(),
        forall|j: int| i < j < s.len() ==> (#[trigger] s[j]).0.deep_view() != s[i].0.deep_view(),
    ensures
        entries_map(s.update(i, e)) == entries_map(s).insert(e.0.deep_view(), e.1.deep_view()),
    decreases s.len(),
{
    if i < s.len() - 1 {
        assert forall|j: int| i < j < s.drop_last().len() implies (#[trigger] s.drop_last()[j]).0.deep_view()
            != s[i].0.deep_view() by {
            assert(s.drop_last()[j] == s[j]);
        }
        lemma_entries_update(s.drop_last(), i, e);
        assert(s.update(i, e).drop_last() =~= s.drop_last().update(i, e));
        assert(s[s.len() - 1].0.deep_view() != s[i].0.deep_view());
    } else {
        assert(s.update(i, e).drop_last() =~= s.drop_last());
    }
    assert(entries_map(s.update(i, e)) =~= entries_map(s).insert(
        e.0.deep_view(),
        e.1.deep_view(),
    ));
}

proof fn lemma_entries_finite<K: DeepView, V: DeepView>(s: Seq<(K, V)>)
    ensures
        entries_map(s).dom().finite(),
    decreases s.len(),
{
    if s.len() > 0 {
        lemma_entries_finite(s.drop_last());
    }
}

impl<K: Key, V: DeepView> Table<K, V> {
    /// An empty table.
    pub fn new() -> (r: Self)
        ensures
            r@ == Map::<K::V, V::V>::empty(),
    {
        Table { entries: Vec::new() }
    }

    /// A table holds finitely many keys.
    pub proof fn lemma_finite(&self)
        ensures
            self@.dom().finite(),
    {
        lemma_entries_finite(self.entries@);
    }

    fn find(&self, k: &K) -> (r: Option<usize>)
        ensures
            match r {
                Some(i) => i < self.entries@.len() && self.entries@[i as int].0.deep_view()
                    == k.deep_view() && (forall|j: int|
                    i < j < self.entries@.len() ==> (#[trigger] self.entries@[j]).0.deep_view()
                        != k.deep_view()),
                None => forall|j: int|
                    0 <= j < self.entries@.len() ==> (#[trigger] self.entries@[j]).0.deep_view()
                        != k.deep_view(),
            },
    {
        let mut i: usize = self.entries.len();
        while i > 0
            invariant
                i <= self.entries@.len(),
                forall|j: int|
                    i <= j < self.entries@.len() ==> (#[trigger] self.entries@[j]).0.deep_view()
                        != k.deep_view(),
            decreases i,
        {
            i = i - 1;
            if self.entries[i].0.same_key(k) {
                return Some(i);
            }
        }
        None
    }

    /// The value of a key.
    pub fn get(&self, k: &K) -> (r: Option<&V>)
        ensures
            match r {
                Some(v) => self@.contains_key(k.deep_view()) && self@[k.deep_view()]
                    == v.deep_view(),
                None => !self@.contains_key(k.deep_view()),
            },
    {
        match self.find(k) {
            Some(i) => {
                proof {
                    lemma_entries_last(self.entries@, i as int);
                }
                Some(&self.entries[i].1)
            },
            None => {
                proof {
                    lemma_entries_none(self.entries@, k.deep_view());
                }
                None
            },
        }
    }

    /// Whether a key has a value.
    pub fn has(&self, k: &K) -> (r: bool)
        ensures
            r == self@.contains_key(k.deep_view()),
    {
        self.get(k).is_some()
    }

    /// Gives a key a value, in place of the one that it may have had.
    pub fn put(&mut self, k: K, v: V)
        ensures
            final(self)@ == old(self)@.insert(k.deep_view(), v.deep_view()),
    {
        match self.find(&k) {
            Some(i) => {
                proof {
                    lemma_entries_update(self.entries@, i as int, (k, v));
                }
                self.entries.set(i, (k, v));
            },
            None => {
                proof {
                    assert(self.entries@.push((k, v)).drop_last() =~= self.entries@);
                }
                self.entries.push((k, v));
            },
        }
    }
}

} // verus!
