//! Association-list maps with unique keys: the in-memory model of the
//! pallet's keyed stores. A map's mathematical meaning is a `Map` from the
//! keys' views to the stored values.

use vstd::prelude::*;

verus! {

/// A key type for [`AssocMap`]: executable equality that decides equality of
/// the keys' views.
pub trait AssocKey: View + Sized {
    /// Decides whether two keys have the same view.
    fn key_eq(&self, other: &Self) -> (r: bool)
        ensures
            r == (self@ == other@),
    ;
}

impl AssocKey for u64 {
    fn key_eq(&self, other: &Self) -> (r: bool) {
        *self == *other
    }
}

/// A keyed store: an association list whose keys have pairwise distinct views.
pub struct AssocMap<K, T> {
    /// The entries, exposed so that in-crate code can walk them.
    pub entries: Vec<(K, T)>,
}

/// The mathematical content of an entry sequence: later entries win, though a
/// well-formed map never holds two entries with one key.
pub open spec fn assoc_view<K: View, T>(s: Seq<(K, T)>) -> Map<K::V, T>
    decreases s.len(),
{
    if s.len() == 0 {
        Map::empty()
    } else {
        assoc_view(s.drop_last()).insert(s.last().0@, s.last().1)
    }
}

/// Pairwise distinct key views.
pub open spec fn distinct_keys<K: View, T>(s: Seq<(K, T)>) -> bool {
    forall|i: int, j: int| 0 <= i < j < s.len() ==> s[i].0@ != s[j].0@
}

/// A key is in the view's domain exactly when some entry holds it.
pub proof fn lemma_assoc_view_dom<K: View, T>(s: Seq<(K, T)>, k: K::V)
    ensures
        assoc_view(s).dom().contains(k) <==> exists|i: int| 0 <= i < s.len() && s[i].0@ == k,
    decreases s.len(),
{
    if s.len() == 0 {
    } else {
        lemma_assoc_view_dom(s.drop_last(), k);
        if s.last().0@ == k {
            assert(s[s.len() - 1].0@ == k);
        } else if assoc_view(s).dom().contains(k) {
            let i = choose|i: int| 0 <= i < s.drop_last().len() && s.drop_last()[i].0@ == k;
            assert(s[i].0@ == k);
        } else if exists|i: int| 0 <= i < s.len() && s[i].0@ == k {
            let i = choose|i: int| 0 <= i < s.len() && s[i].0@ == k;
            assert(s.drop_last()[i].0@ == k);
        }
    }
}

/// With distinct keys, the entry at `i` gives the view's value at its key.
pub proof fn lemma_assoc_view_index<K: View, T>(s: Seq<(K, T)>, i: int)
    requires
        distinct_keys(s),
        0 <= i < s.len(),
    ensures
        assoc_view(s).dom().contains(s[i].0@),
        assoc_view(s)[s[i].0@] == s[i].1,
    decreases s.len(),
{
    if i == s.len() - 1 {
    } else {
        assert(distinct_keys(s.drop_last())) by {
            assert(forall|a: int, b: int|
                0 <= a < b < s.drop_last().len() ==> s.drop_last()[a].0@ != s.drop_last()[b].0@);
        }
        lemma_assoc_view_index(s.drop_last(), i);
        assert(s.drop_last()[i] == s[i]);
        assert(s.last().0@ != s[i].0@);
    }
}

/// Appending an entry with a fresh key inserts it into the view.
pub proof fn lemma_assoc_view_push<K: View, T>(s: Seq<(K, T)>, e: (K, T))
    requires
        distinct_keys(s),
        forall|i: int| 0 <= i < s.len() ==> s[i].0@ != e.0@,
    ensures
        distinct_keys(s.push(e)),
        assoc_view(s.push(e)) == assoc_view(s).insert(e.0@, e.1),
{
    assert(s.push(e).drop_last() =~= s);
    assert(s.push(e).last() == e);
    assert(forall|i: int, j: int|
        0 <= i < j < s.push(e).len() ==> s.push(e)[i].0@ != s.push(e)[j].0@) by {
        assert(forall|i: int| 0 <= i < s.len() ==> s.push(e)[i] == s[i]);
    }
}

/// Overwriting the entry that holds a key updates the view at that key.
pub proof fn lemma_assoc_view_update<K: View, T>(s: Seq<(K, T)>, i: int, e: (K, T))
    requires
        distinct_keys(s),
        0 <= i < s.len(),
        e.0@ == s[i].0@,
    ensures
        distinct_keys(s.update(i, e)),
        assoc_view(s.update(i, e)) == assoc_view(s).insert(e.0@, e.1),
    decreases s.len(),
{
    assert(forall|a: int, b: int|
        0 <= a < b < s.update(i, e).len() ==> s.update(i, e)[a].0@ != s.update(i, e)[b].0@);
    if i == s.len() - 1 {
        assert(s.update(i, e).drop_last() =~= s.drop_last());
        assert(s.update(i, e).last() == e);
        assert(assoc_view(s.drop_last()).insert(e.0@, e.1)
            =~= assoc_view(s.drop_last()).insert(s.last().0@, s.last().1).insert(e.0@, e.1));
    } else {
        assert(distinct_keys(s.drop_last()));
        lemma_assoc_view_update(s.drop_last(), i, e);
        assert(s.update(i, e).drop_last() =~= s.drop_last().update(i, e));
        assert(s.update(i, e).last() == s.last());
        assert(s.drop_last()[i] == s[i]);
        assert(s.last().0@ != e.0@);
        assert(assoc_view(s.drop_last()).insert(e.0@, e.1).insert(s.last().0@, s.last().1)
            =~= assoc_view(s.drop_last()).insert(s.last().0@, s.last().1).insert(e.0@, e.1));
    }
}

/// Removing the entry that holds a key removes that key from the view.
pub proof fn lemma_assoc_view_remove<K: View, T>(s: Seq<(K, T)>, i: int)
    requires
        distinct_keys(s),
        0 <= i < s.len(),
    ensures
        distinct_keys(s.remove(i)),
        assoc_view(s.remove(i)) == assoc_view(s).remove(s[i].0@),
    decreases s.len(),
{
    assert(forall|a: int, b: int|
        0 <= a < b < s.remove(i).len() ==> s.remove(i)[a].0@ != s.remove(i)[b].0@);
    if i == s.len() - 1 {
        assert(s.remove(i) =~= s.drop_last());
        lemma_assoc_view_dom(s.drop_last(), s[i].0@);
        assert(!assoc_view(s.drop_last()).dom().contains(s[i].0@));
        assert(assoc_view(s.drop_last())
            =~= assoc_view(s.drop_last()).insert(s.last().0@, s.last().1).remove(s[i].0@));
    } else {
        assert(distinct_keys(s.drop_last()));
        lemma_assoc_view_remove(s.drop_last(), i);
        assert(s.remove(i).drop_last() =~= s.drop_last().remove(i));
        assert(s.remove(i).last() == s.last());
        assert(s.drop_last()[i] == s[i]);
        assert(s.last().0@ != s[i].0@);
        assert(assoc_view(s.drop_last()).remove(s[i].0@).insert(s.last().0@, s.last().1)
            =~= assoc_view(s.drop_last()).insert(s.last().0@, s.last().1).remove(s[i].0@));
    }
}

impl<K: AssocKey, T> AssocMap<K, T> {
    /// The map's mathematical content.
    pub open spec fn view_spec(&self) -> Map<K::V, T> {
        assoc_view(self.entries@)
    }

    /// Well-formed: no two entries share a key.
    pub open spec fn wf(&self) -> bool {
        distinct_keys(self.entries@)
    }

    /// An empty map.
    pub fn new() -> (r: Self)
        ensures
            r.wf(),
            r@ == Map::<K::V, T>::empty(),
            r.entries@.len() == 0,
    {
        AssocMap { entries: Vec::new() }
    }

    /// The index of the entry that holds `k`, if any.
    fn find_index(&self, k: &K) -> (r: Option<usize>)
        ensures
            match r {
                Some(i) => i < self.entries@.len() && self.entries@[i as int].0@ == k@,
                None => forall|i: int| 0 <= i < self.entries@.len() ==> self.entries@[i].0@ != k@,
            },
    {
        let n = self.entries.len();
        let mut i: usize = 0;
        while i < n
            invariant
                n == self.entries@.len(),
                i <= n,
                forall|j: int| 0 <= j < i ==> self.entries@[j].0@ != k@,
            decreases n - i,
        {
            if self.entries[i].0.key_eq(k) {
                return Some(i);
            }
            i = i + 1;
        }
        None
    }

    /// Whether the map holds `k`.
    pub fn contains_key(&self, k: &K) -> (r: bool)
        ensures
            r == self@.dom().contains(k@),
    {
        let r = self.find_index(k);
        proof {
            lemma_assoc_view_dom(self.entries@, k@);
        }
        r.is_some()
    }

    /// The value stored under `k`, if any.
    pub fn get(&self, k: &K) -> (r: Option<&T>)
        requires
            self.wf(),
        ensures
            match r {
                Some(v) => self@.dom().contains(k@) && *v == self@[k@],
                None => !self@.dom().contains(k@),
            },
    {
        proof {
            lemma_assoc_view_dom(self.entries@, k@);
        }
        match self.find_index(k) {
            Some(i) => {
                proof {
                    lemma_assoc_view_index(self.entries@, i as int);
                }
                Some(&self.entries[i].1)
            },
            None => None,
        }
    }

    /// Stores `v` under `k`, overwriting any previous value.
    pub fn insert(&mut self, k: K, v: T)
        requires
            old(self).wf(),
        ensures
            final(self).wf(),
            final(self)@ == old(self)@.insert(k@, v),
    {
        match self.find_index(&k) {
            Some(i) => {
                proof {
                    lemma_assoc_view_update(self.entries@, i as int, (k, v));
                }
                self.entries.set(i, (k, v));
            },
            None => {
                proof {
                    lemma_assoc_view_push(self.entries@, (k, v));
                }
                self.entries.push((k, v));
            },
        }
    }

    /// Removes and returns the value stored under `k`, if any.
    pub fn remove(&mut self, k: &K) -> (r: Option<T>)
        requires
            old(self).wf(),
        ensures
            final(self).wf(),
            match r {
                Some(v) => old(self)@.dom().contains(k@) && v == old(self)@[k@]
                    && final(self)@ == old(self)@.remove(k@),
                None => !old(self)@.dom().contains(k@) && *final(self) == *old(self),
            },
    {
        proof {
            lemma_assoc_view_dom(self.entries@, k@);
        }
        match self.find_index(k) {
            Some(i) => {
                proof {
                    lemma_assoc_view_index(self.entries@, i as int);
                    lemma_assoc_view_remove(self.entries@, i as int);
                }
                let (_, v) = self.entries.remove(i);
                Some(v)
            },
            None => None,
        }
    }

    /// The number of entries.
    pub fn len(&self) -> (r: usize)
        ensures
            r == self.entries@.len(),
    {
        self.entries.len()
    }
}

impl<K: AssocKey, T> View for AssocMap<K, T> {
    type V = Map<K::V, T>;

    open spec fn view(&self) -> Map<K::V, T> {
        self.view_spec()
    }
}

} // verus!
