//! A small map keyed by identifiers, kept as a list of entries in the order
//! their keys were first inserted.
use vstd::prelude::*;

verus! {

/// Keys that can be compared for equality in executable code.
pub trait MapKey: Sized + Copy {
    fn same(&self, other: &Self) -> (r: bool)
        ensures
            r == (*self == *other),
    ;
}

impl MapKey for u128 {
    fn same(&self, other: &Self) -> (r: bool) {
        *self == *other
    }
}

/// The map an entry list denotes: a later entry for a key wins.
pub open spec fn to_map<K, V>(s: Seq<(K, V)>) -> Map<K, V>
    decreases s.len(),
{
    if s.len() == 0 {
        Map::empty()
    } else {
        to_map(s.drop_last()).insert(s.last().0, s.last().1)
    }
}

/// No key occurs in two entries.
pub open spec fn keys_unique<K, V>(s: Seq<(K, V)>) -> bool {
    forall|i: int, j: int| 0 <= i < j < s.len() ==> (#[trigger] s[i]).0 != (#[trigger] s[j]).0
}

pub open spec fn key_seq<K, V>(s: Seq<(K, V)>) -> Seq<K> {
    Seq::new(s.len(), |i: int| s[i].0)
}

pub proof fn lemma_to_map_dom<K, V>(s: Seq<(K, V)>, k: K)
    ensures
        to_map(s).contains_key(k) <==> exists|i: int| 0 <= i < s.len() && (#[trigger] s[i]).0 == k,
    decreases s.len(),
{
    if s.len() > 0 {
        lemma_to_map_dom(s.drop_last(), k);
        if to_map(s.drop_last()).contains_key(k) {
            let i = choose|i: int| 0 <= i < s.drop_last().len() && (#[trigger] s.drop_last()[i]).0 == k;
            assert(s[i] == s.drop_last()[i]);
        }
        if exists|i: int| 0 <= i < s.len() && (#[trigger] s[i]).0 == k {
            let i = choose|i: int| 0 <= i < s.len() && (#[trigger] s[i]).0 == k;
            if i < s.len() - 1 {
                assert(s.drop_last()[i] == s[i]);
            }
        }
    }
}

pub proof fn lemma_to_map_finite<K, V>(s: Seq<(K, V)>)
    ensures
        to_map(s).dom().finite(),
    decreases s.len(),
{
    if s.len() > 0 {
        lemma_to_map_finite(s.drop_last());
    }
}

pub proof fn lemma_to_map_get<K, V>(s: Seq<(K, V)>, i: int)
    requires
        keys_unique(s),
        0 <= i < s.len(),
    ensures
        to_map(s).contains_key(s[i].0),
        to_map(s)[s[i].0] == s[i].1,
    decreases s.len(),
{
    if i < s.len() - 1 {
        let t = s.drop_last();
        assert(keys_unique(t)) by {
            assert forall|a: int, b: int| 0 <= a < b < t.len() implies (#[trigger] t[a]).0 != (#[trigger] t[b]).0 by {
                assert(t[a] == s[a] && t[b] == s[b]);
            }
        }
        assert(t[i] == s[i]);
        lemma_to_map_get(t, i);
        assert(s[i].0 != s[s.len() - 1].0);
    }
}

pub proof fn lemma_unique_drop_last<K, V>(s: Seq<(K, V)>)
    requires
        keys_unique(s),
        s.len() > 0,
    ensures
        keys_unique(s.drop_last()),
        !to_map(s.drop_last()).contains_key(s.last().0),
{
    let t = s.drop_last();
    assert forall|a: int, b: int| 0 <= a < b < t.len() implies (#[trigger] t[a]).0 != (#[trigger] t[b]).0 by {
        assert(t[a] == s[a] && t[b] == s[b]);
    }
    lemma_to_map_dom(t, s.last().0);
    if to_map(t).contains_key(s.last().0) {
        let i = choose|i: int| 0 <= i < t.len() && (#[trigger] t[i]).0 == s.last().0;
        assert(t[i] == s[i]);
        assert(s[i].0 != s[s.len() - 1].0);
    }
}

pub proof fn lemma_to_map_update<K, V>(s: Seq<(K, V)>, i: int, v: V)
    requires
        keys_unique(s),
        0 <= i < s.len(),
    ensures
        keys_unique(s.update(i, (s[i].0, v))),
        to_map(s.update(i, (s[i].0, v))) =~= to_map(s).insert(s[i].0, v),
    decreases s.len(),
{
    let u = s.update(i, (s[i].0, v));
    assert forall|a: int, b: int| 0 <= a < b < u.len() implies (#[trigger] u[a]).0 != (#[trigger] u[b]).0 by {
        assert(u[a].0 == s[a].0 && u[b].0 == s[b].0);
    }
    if i == s.len() - 1 {
        assert(u.drop_last() =~= s.drop_last());
        lemma_unique_drop_last(s);
    } else {
        let t = s.drop_last();
        lemma_unique_drop_last(s);
        assert(t[i] == s[i]);
        lemma_to_map_update(t, i, v);
        assert(u.drop_last() =~= t.update(i, (t[i].0, v)));
        assert(s[i].0 != s.last().0);
    }
}

pub proof fn lemma_to_map_push<K, V>(s: Seq<(K, V)>, k: K, v: V)
    requires
        keys_unique(s),
        !to_map(s).contains_key(k),
    ensures
        keys_unique(s.push((k, v))),
        to_map(s.push((k, v))) =~= to_map(s).insert(k, v),
{
    let u = s.push((k, v));
    assert(u.drop_last() =~= s);
    assert forall|a: int, b: int| 0 <= a < b < u.len() implies (#[trigger] u[a]).0 != (#[trigger] u[b]).0 by {
        if b == s.len() {
            lemma_to_map_dom(s, k);
            assert(u[a] == s[a]);
        } else {
            assert(u[a] == s[a] && u[b] == s[b]);
        }
    }
}

pub proof fn lemma_to_map_remove<K, V>(s: Seq<(K, V)>, i: int)
    requires
        keys_unique(s),
        0 <= i < s.len(),
    ensures
        keys_unique(s.remove(i)),
        to_map(s.remove(i)) =~= to_map(s).remove(s[i].0),
    decreases s.len(),
{
    let u = s.remove(i);
    assert forall|a: int, b: int| 0 <= a < b < u.len() implies (#[trigger] u[a]).0 != (#[trigger] u[b]).0 by {
        let a2 = if a < i { a } else { a + 1 };
        let b2 = if b < i { b } else { b + 1 };
        assert(u[a] == s[a2] && u[b] == s[b2]);
    }
    lemma_unique_drop_last(s);
    if i == s.len() - 1 {
        assert(u =~= s.drop_last());
    } else {
        let t = s.drop_last();
        assert(t[i] == s[i]);
        lemma_to_map_remove(t, i);
        assert(u.drop_last() =~= t.remove(i));
        assert(u.last() == s.last());
        assert(s[i].0 != s.last().0);
    }
}

/// A map from keys to values that remembers the order in which keys arrived.
#[derive(Debug, Clone)]
pub struct IdMap<K, V> {
    entries: Vec<(K, V)>,
}

impl<K, V> View for IdMap<K, V> {
    type V = Map<K, V>;

    closed spec fn view(&self) -> Map<K, V> {
        to_map(self.entries@)
    }
}

impl<K: MapKey, V> IdMap<K, V> {
    pub closed spec fn wf(&self) -> bool {
        keys_unique(self.entries@)
    }

    /// The keys, in the order they were first inserted.
    pub closed spec fn keys_in_order(&self) -> Seq<K> {
        key_seq(self.entries@)
    }

    pub proof fn lemma_keys(&self)
        requires
            self.wf(),
        ensures
            self.keys_in_order().no_duplicates(),
            self.keys_in_order().len() == self@.dom().len(),
            self@.dom().finite(),
            forall|k: K| self@.contains_key(k) <==> self.keys_in_order().contains(k),
    {
        let s = self.entries@;
        let ks = key_seq(s);
        lemma_to_map_finite(s);
        assert forall|k: K| self@.contains_key(k) <==> ks.contains(k) by {
            lemma_to_map_dom(s, k);
            if ks.contains(k) {
                let j = choose|j: int| 0 <= j < ks.len() && ks[j] == k;
                assert(s[j].0 == k);
            }
            if self@.contains_key(k) {
                let j = choose|j: int| 0 <= j < s.len() && (#[trigger] s[j]).0 == k;
                assert(ks[j] == k);
            }
        }
        assert forall|a: int, b: int| 0 <= a < ks.len() && 0 <= b < ks.len() && a != b implies ks[a] != ks[b] by {
            if a < b {
                assert(s[a].0 != s[b].0);
            } else {
                assert(s[b].0 != s[a].0);
            }
        }
        ks.unique_seq_to_set();
        assert(ks.to_set() =~= self@.dom());
    }

    pub fn new() -> (m: Self)
        ensures
            m.wf(),
            m@ == Map::<K, V>::empty(),
            m.keys_in_order() == Seq::<K>::empty(),
    {
        let m = IdMap { entries: Vec::new() };
        assert(key_seq(m.entries@) =~= Seq::<K>::empty());
        m
    }

    pub fn len(&self) -> (n: usize)
        requires
            self.wf(),
        ensures
            n == self.keys_in_order().len(),
            n == self@.dom().len(),
    {
        proof {
            self.lemma_keys();
        }
        self.entries.len()
    }

    /// The key at a position of the insertion order.
    pub fn key_at(&self, i: usize) -> (k: K)
        requires
            i < self.keys_in_order().len(),
        ensures
            k == self.keys_in_order()[i as int],
    {
        self.entries[i].0
    }

    fn position(&self, k: &K) -> (r: Option<usize>)
        requires
            self.wf(),
        ensures
            match r {
                Some(i) => i < self.entries@.len() && self.entries@[i as int].0 == *k,
                None => !self@.contains_key(*k),
            },
    {
        let mut i: usize = 0;
        while i < self.entries.len()
            invariant
                i <= self.entries@.len(),
                forall|j: int| 0 <= j < i ==> (#[trigger] self.entries@[j]).0 != *k,
            decreases self.entries@.len() - i,
        {
            if self.entries[i].0.same(k) {
                return Some(i);
            }
            i = i + 1;
        }
        proof {
            lemma_to_map_dom(self.entries@, *k);
        }
        None
    }

    pub fn contains_key(&self, k: &K) -> (r: bool)
        requires
            self.wf(),
        ensures
            r == self@.contains_key(*k),
    {
        match self.position(k) {
            Some(i) => {
                proof {
                    lemma_to_map_get(self.entries@, i as int);
                }
                true
            },
            None => false,
        }
    }

    pub fn get(&self, k: &K) -> (r: Option<&V>)
        requires
            self.wf(),
        ensures
            match r {
                Some(v) => self@.contains_key(*k) && self@[*k] == *v,
                None => !self@.contains_key(*k),
            },
    {
        match self.position(k) {
            Some(i) => {
                proof {
                    lemma_to_map_get(self.entries@, i as int);
                }
                Some(&self.entries[i].1)
            },
            None => None,
        }
    }

    /// Sets the value of a key; a new key goes to the end of the order.
    pub fn insert(&mut self, k: K, v: V)
        requires
            old(self).wf(),
        ensures
            final(self).wf(),
            final(self)@ == old(self)@.insert(k, v),
            final(self).keys_in_order() == (if old(self)@.contains_key(k) {
                old(self).keys_in_order()
            } else {
                old(self).keys_in_order().push(k)
            }),
    {
        match self.position(&k) {
            Some(i) => {
                proof {
                    lemma_to_map_update(self.entries@, i as int, v);
                    lemma_to_map_get(self.entries@, i as int);
                }
                self.entries.set(i, (k, v));
                assert(key_seq(self.entries@) =~= key_seq(old(self).entries@));
            },
            None => {
                proof {
                    lemma_to_map_push(self.entries@, k, v);
                }
                self.entries.push((k, v));
                assert(key_seq(self.entries@) =~= key_seq(old(self).entries@).push(k));
            },
        }
    }

    /// Drops a key and its value; the other keys keep their order.
    pub fn remove(&mut self, k: &K)
        requires
            old(self).wf(),
        ensures
            final(self).wf(),
            final(self)@ == old(self)@.remove(*k),
            final(self).keys_in_order() == old(self).keys_in_order().filter(|x: K| x != *k),
    {
        proof {
            self.lemma_keys();
        }
        match self.position(k) {
            Some(i) => {
                proof {
                    lemma_to_map_remove(self.entries@, i as int);
                }
                let ghost ks = key_seq(self.entries@);
                self.entries.remove(i);
                proof {
                    lemma_filter_unique_remove(ks, i as int);
                    assert(key_seq(self.entries@) =~= ks.remove(i as int));
                }
            },
            None => {
                proof {
                    assert(to_map(self.entries@).remove(*k) =~= to_map(self.entries@));
                    let ks = key_seq(self.entries@);
                    lemma_filter_absent(ks, *k);
                }
            },
        }
    }

    pub fn clear(&mut self)
        ensures
            final(self).wf(),
            final(self)@ == Map::<K, V>::empty(),
            final(self).keys_in_order() == Seq::<K>::empty(),
    {
        self.entries.clear();
        assert(key_seq(self.entries@) =~= Seq::<K>::empty());
    }
}

proof fn lemma_filter_absent<K>(s: Seq<K>, k: K)
    requires
        !s.contains(k),
    ensures
        s.filter(|x: K| x != k) == s,
    decreases s.len(),
{
    reveal(Seq::filter);
    if s.len() > 0 {
        assert(!s.drop_last().contains(k)) by {
            if s.drop_last().contains(k) {
                let j = choose|j: int| 0 <= j < s.drop_last().len() && s.drop_last()[j] == k;
                assert(s[j] == k);
            }
        }
        lemma_filter_absent(s.drop_last(), k);
        assert(s.last() != k) by {
            assert(s[s.len() - 1] == s.last());
        }
        assert(s.drop_last().push(s.last()) =~= s);
    }
}

proof fn lemma_filter_unique_remove<K>(s: Seq<K>, i: int)
    requires
        0 <= i < s.len(),
        s.no_duplicates(),
    ensures
        s.filter(|x: K| x != s[i]) == s.remove(i),
    decreases s.len(),
{
    reveal(Seq::filter);
    let k = s[i];
    let t = s.drop_last();
    if i == s.len() - 1 {
        assert(!t.contains(k)) by {
            if t.contains(k) {
                let j = choose|j: int| 0 <= j < t.len() && t[j] == k;
                assert(s[j] == s[i]);
            }
        }
        lemma_filter_absent(t, k);
        assert(s.remove(i) =~= t);
    } else {
        assert(t[i] == k);
        assert(t.no_duplicates()) by {
            assert forall|a: int, b: int| 0 <= a < t.len() && 0 <= b < t.len() && a != b implies t[a] != t[b] by {
                assert(t[a] == s[a] && t[b] == s[b]);
            }
        }
        lemma_filter_unique_remove(t, i);
        assert(s.last() != k) by {
            assert(s[s.len() - 1] == s.last());
        }
        assert(s.remove(i) =~= t.remove(i).push(s.last()));
    }
}

} // verus!
