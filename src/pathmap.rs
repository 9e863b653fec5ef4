//! A small map keyed by path, paths that name the same components being one
//! key, with later insertions replacing earlier ones.
use vstd::prelude::*;
use crate::pathkey::{components, same_path, same_path_spec};

verus! {

/// A map from paths (by their components) to values, kept as a list of
/// distinct keys.
pub struct PathMap<V: View> {
    entries: Vec<(String, V)>,
    model: Ghost<Map<Seq<Seq<char>>, V::V>>,
}

impl<V: View> View for PathMap<V> {
    type V = Map<Seq<Seq<char>>, V::V>;

    closed spec fn view(&self) -> Map<Seq<Seq<char>>, V::V> {
        self.model@
    }
}

impl<V: View> PathMap<V> {
    /// The entries hold each key once, and agree with the map they stand for.
    pub closed spec fn wf(&self) -> bool {
        &&& forall|i: int, j: int|
            0 <= i < j < self.entries@.len() ==> components(self.entries@[i].0@) != components(
                self.entries@[j].0@,
            )
        &&& forall|i: int|
            0 <= i < self.entries@.len() ==> #[trigger] self.model@.contains_key(
                components(self.entries@[i].0@),
            ) && self.model@[components(self.entries@[i].0@)] == self.entries@[i].1@
        &&& forall|k: Seq<Seq<char>>|
            #[trigger] self.model@.contains_key(k) ==> exists|i: int|
                0 <= i < self.entries@.len() && components(self.entries@[i].0@) == k
    }

    /// The empty map.
    pub fn new() -> (r: Self)
        ensures
            r.wf(),
            r@ == Map::<Seq<Seq<char>>, V::V>::empty(),
    {
        PathMap { entries: Vec::new(), model: Ghost(Map::empty()) }
    }

    /// The position of `key` among the entries.
    fn position(&self, key: &str) -> (r: Option<usize>)
        requires
            self.wf(),
        ensures
            match r {
                Some(i) => i < self.entries@.len() && components(self.entries@[i as int].0@)
                    == components(key@),
                None => !self@.contains_key(components(key@)),
            },
    {
        let mut i: usize = 0;
        while i < self.entries.len()
            invariant
                self.wf(),
                i <= self.entries@.len(),
                forall|j: int| 0 <= j < i ==> components(self.entries@[j].0@) != components(key@),
            decreases self.entries@.len() - i,
        {
            if same_path(self.entries[i].0.as_str(), key) {
                return Some(i);
            }
            i = i + 1;
        }
        None
    }

    /// Maps `key` to `value`, replacing what `key` was mapped to.
    pub fn insert(&mut self, key: String, value: V)
        requires
            old(self).wf(),
        ensures
            final(self).wf(),
            final(self)@ == old(self)@.insert(components(key@), value@),
    {
        let ghost k = components(key@);
        let ghost v = value@;
        match self.position(key.as_str()) {
            Some(i) => {
                self.entries.set(i, (key, value));
                self.model = Ghost(self.model@.insert(k, v));
                assert forall|k2: Seq<Seq<char>>| #[trigger] self.model@.contains_key(k2) implies exists|
                    j: int,
                | 0 <= j < self.entries@.len() && components(self.entries@[j].0@) == k2 by {
                    if k2 != k {
                        let j = choose|j: int|
                            0 <= j < old(self).entries@.len() && components(
                                old(self).entries@[j].0@,
                            ) == k2;
                        assert(components(self.entries@[j].0@) == k2);
                    } else {
                        assert(components(self.entries@[i as int].0@) == k2);
                    }
                }
            },
            None => {
                self.entries.push((key, value));
                self.model = Ghost(self.model@.insert(k, v));
                assert forall|k2: Seq<Seq<char>>| #[trigger] self.model@.contains_key(k2) implies exists|
                    j: int,
                | 0 <= j < self.entries@.len() && components(self.entries@[j].0@) == k2 by {
                    if k2 != k {
                        let j = choose|j: int|
                            0 <= j < old(self).entries@.len() && components(
                                old(self).entries@[j].0@,
                            ) == k2;
                        assert(components(self.entries@[j].0@) == k2);
                    } else {
                        assert(components(self.entries@[self.entries@.len() - 1].0@) == k2);
                    }
                }
            },
        }
    }

    /// The value `key` is mapped to.
    pub fn get(&self, key: &str) -> (r: Option<&V>)
        requires
            self.wf(),
        ensures
            match r {
                Some(v) => self@.contains_key(components(key@)) && v@ == self@[components(key@)],
                None => !self@.contains_key(components(key@)),
            },
    {
        match self.position(key) {
            Some(i) => {
                assert(self.model@.contains_key(components(self.entries@[i as int].0@)));
                Some(&self.entries[i].1)
            },
            None => None,
        }
    }

    /// Whether `key` is mapped to anything.
    pub fn contains_key(&self, key: &str) -> (r: bool)
        requires
            self.wf(),
        ensures
            r == self@.contains_key(components(key@)),
    {
        self.position(key).is_some()
    }

    /// Whether the map is empty.
    pub fn is_empty(&self) -> (r: bool)
        requires
            self.wf(),
        ensures
            r == (self@.dom() == Set::<Seq<Seq<char>>>::empty()),
    {
        if self.entries.len() == 0 {
            assert(self@.dom() =~= Set::<Seq<Seq<char>>>::empty());
            true
        } else {
            assert(self@.dom().contains(components(self.entries@[0].0@)));
            false
        }
    }
}

impl PathMap<String> {
    /// Whether some key is mapped to a path that names the same path as `value`.
    pub fn contains_value(&self, value: &str) -> (r: bool)
        requires
            self.wf(),
        ensures
            r == exists|k: Seq<Seq<char>>|
                self@.contains_key(k) && same_path_spec(#[trigger] self@[k], value@),
    {
        let mut i: usize = 0;
        while i < self.entries.len()
            invariant
                self.wf(),
                i <= self.entries@.len(),
                forall|j: int| 0 <= j < i ==> !same_path_spec(self.entries@[j].1@, value@),
            decreases self.entries@.len() - i,
        {
            if same_path(self.entries[i].1.as_str(), value) {
                assert(self@.contains_key(components(self.entries@[i as int].0@)));
                return true;
            }
            i = i + 1;
        }
        assert forall|k: Seq<Seq<char>>| self@.contains_key(k) implies !same_path_spec(
            #[trigger] self@[k],
            value@,
        ) by {
            let j = choose|j: int|
                0 <= j < self.entries@.len() && components(self.entries@[j].0@) == k;
            assert(self@[components(self.entries@[j].0@)] == self.entries@[j].1@);
        }
        false
    }
}

} // verus!
