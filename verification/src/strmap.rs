//! A small map from names to copyable values, kept in insertion order.
use vstd::prelude::*;
use crate::idmap::{keys_unique, lemma_to_map_dom, lemma_to_map_get, lemma_to_map_push,
    lemma_to_map_remove, lemma_to_map_update, to_map};
use crate::text::str_is;

verus! {

/// A map keyed by names (such as audio source names).
#[derive(Debug, Clone, PartialEq, Eq)]
pub struct StrMap<V> {
    entries: Vec<(String, V)>,
}

pub open spec fn entry_views<V>(s: Seq<(String, V)>) -> Seq<(Seq<char>, V)> {
    s.map_values(|e: (String, V)| (e.0@, e.1))
}

impl<V> View for StrMap<V> {
    type V = Map<Seq<char>, V>;

    closed spec fn view(&self) -> Map<Seq<char>, V> {
        to_map(entry_views(self.entries@))
    }
}

impl<V: Copy> StrMap<V> {
    pub closed spec fn wf(&self) -> bool {
        keys_unique(entry_views(self.entries@))
    }

    /// The names, in the order they were first inserted.
    pub closed spec fn names(&self) -> Seq<Seq<char>> {
        Seq::new(self.entries@.len(), |i: int| self.entries@[i].0@)
    }

    pub proof fn lemma_names(&self)
        requires
            self.wf(),
        ensures
            forall|k: Seq<char>| self@.contains_key(k) <==> self.names().contains(k),
    {
        let s = entry_views(self.entries@);
        assert forall|k: Seq<char>| self@.contains_key(k) <==> self.names().contains(k) by {
            lemma_to_map_dom(s, k);
            if self.names().contains(k) {
                let j = choose|j: int| 0 <= j < self.names().len() && self.names()[j] == k;
                assert(s[j].0 == k);
            }
            if self@.contains_key(k) {
                let j = choose|j: int| 0 <= j < s.len() && (#[trigger] s[j]).0 == k;
                assert(self.names()[j] == k);
            }
        }
    }

    pub fn new() -> (m: Self)
        ensures
            m.wf(),
            m@ == Map::<Seq<char>, V>::empty(),
            m.names() == Seq::<Seq<char>>::empty(),
    {
        let m = StrMap { entries: Vec::new() };
        assert(entry_views(m.entries@) =~= Seq::<(Seq<char>, V)>::empty());
        assert(m.names() =~= Seq::<Seq<char>>::empty());
        m
    }

    pub fn len(&self) -> (n: usize)
        ensures
            n == self.names().len(),
    {
        self.entries.len()
    }

    pub fn is_empty(&self) -> (r: bool)
        requires
            self.wf(),
        ensures
            r == (self@.dom() =~= Set::<Seq<char>>::empty()),
    {
        proof {
            self.lemma_names();
            if self.entries@.len() > 0 {
                assert(self.names().contains(self.names()[0]));
                assert(self@.contains_key(self.names()[0]));
            } else {
                assert forall|k: Seq<char>| !self@.contains_key(k) by {
                    if self@.contains_key(k) {
                        assert(self.names().contains(k));
                    }
                }
            }
        }
        self.entries.len() == 0
    }

    /// The name at a position of the insertion order.
    pub fn name_at(&self, i: usize) -> (r: &String)
        requires
            i < self.names().len(),
        ensures
            r@ == self.names()[i as int],
    {
        &self.entries[i].0
    }

    fn position(&self, k: &str) -> (r: Option<usize>)
        requires
            self.wf(),
        ensures
            match r {
                Some(i) => i < self.entries@.len() && self.entries@[i as int].0@ == k@,
                None => !self@.contains_key(k@),
            },
    {
        let mut i: usize = 0;
        while i < self.entries.len()
            invariant
                i <= self.entries@.len(),
                forall|j: int| 0 <= j < i ==> (#[trigger] self.entries@[j]).0@ != k@,
            decreases self.entries@.len() - i,
        {
            if str_is(self.entries[i].0.as_str(), k) {
                return Some(i);
            }
            i = i + 1;
        }
        proof {
            let s = entry_views(self.entries@);
            lemma_to_map_dom(s, k@);
            if self@.contains_key(k@) {
                let j = choose|j: int| 0 <= j < s.len() && (#[trigger] s[j]).0 == k@;
                assert(self.entries@[j].0@ == k@);
            }
        }
        None
    }

    pub fn get(&self, k: &str) -> (r: Option<V>)
        requires
            self.wf(),
        ensures
            match r {
                Some(v) => self@.contains_key(k@) && self@[k@] == v,
                None => !self@.contains_key(k@),
            },
    {
        match self.position(k) {
            Some(i) => {
                proof {
                    lemma_to_map_get(entry_views(self.entries@), i as int);
                }
                Some(self.entries[i].1)
            },
            None => None,
        }
    }

    pub fn insert(&mut self, k: String, v: V)
        requires
            old(self).wf(),
        ensures
            final(self).wf(),
            final(self)@ == old(self)@.insert(k@, v),
    {
        let ghost kv = k@;
        match self.position(k.as_str()) {
            Some(i) => {
                proof {
                    lemma_to_map_update(entry_views(self.entries@), i as int, v);
                }
                self.entries.set(i, (k, v));
                assert(entry_views(self.entries@) =~= entry_views(old(self).entries@).update(
                    i as int,
                    (entry_views(old(self).entries@)[i as int].0, v),
                ));
            },
            None => {
                proof {
                    lemma_to_map_push(entry_views(self.entries@), kv, v);
                }
                self.entries.push((k, v));
                assert(entry_views(self.entries@) =~= entry_views(old(self).entries@).push((kv, v)));
            },
        }
    }

    pub fn remove(&mut self, k: &str)
        requires
            old(self).wf(),
        ensures
            final(self).wf(),
            final(self)@ == old(self)@.remove(k@),
    {
        match self.position(k) {
            Some(i) => {
                proof {
                    lemma_to_map_remove(entry_views(self.entries@), i as int);
                }
                self.entries.remove(i);
                assert(entry_views(self.entries@) =~= entry_views(old(self).entries@).remove(i as int));
            },
            None => {
                assert(self@.remove(k@) =~= self@);
            },
        }
    }
}

} // verus!
