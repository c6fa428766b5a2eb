//! Association maps from string keys to values, with insert-or-overwrite
//! semantics. Property maps, the automatic style table and the named style
//! table are all instances of this one type.

use crate::strutil::str_eq;
use vstd::prelude::*;

verus! {

/// A map from string keys to values, keyed by character sequence. Inserting
/// an existing key overwrites its value; nothing is ever deleted.
pub struct AssocMap<T> {
    pub(crate) entries: Vec<(String, T)>,
}

/// A flat property map: property name to property value.
pub type PropMap = AssocMap<String>;

impl<T> AssocMap<T> {
    pub(crate) open spec fn keys_unique(s: Seq<(String, T)>) -> bool {
        forall|i: int, j: int| 0 <= i < j < s.len() ==> (#[trigger] s[i]).0@ != (#[trigger] s[j]).0@
    }

    /// The entries hold no key twice.
    #[verifier::type_invariant]
    pub(crate) closed spec fn wf(self) -> bool {
        Self::keys_unique(self.entries@)
    }
}

impl<T: View> AssocMap<T> {
    /// The mathematical map denoted by a sequence of key/value entries,
    /// later entries overwriting earlier ones.
    pub(crate) open spec fn map_of(s: Seq<(String, T)>) -> Map<Seq<char>, T::V>
        decreases s.len(),
    {
        if s.len() == 0 {
            Map::empty()
        } else {
            Self::map_of(s.drop_last()).insert(s.last().0@, s.last().1@)
        }
    }

    /// An empty map.
    pub fn new() -> (r: Self)
        ensures
            r@ == Map::<Seq<char>, T::V>::empty(),
    {
        AssocMap { entries: Vec::new() }
    }

    proof fn lemma_map_of_get(s: Seq<(String, T)>, i: int)
        requires
            Self::keys_unique(s),
            0 <= i < s.len(),
        ensures
            Self::map_of(s).contains_key(s[i].0@),
            Self::map_of(s)[s[i].0@] == s[i].1@,
        decreases s.len(),
    {
        if i + 1 < s.len() {
            assert(Self::keys_unique(s.drop_last()));
            Self::lemma_map_of_get(s.drop_last(), i);
            assert(s.drop_last()[i] == s[i]);
            assert(s[i].0@ != s.last().0@);
        }
    }

    proof fn lemma_map_of_absent(s: Seq<(String, T)>, k: Seq<char>)
        requires
            forall|i: int| 0 <= i < s.len() ==> (#[trigger] s[i]).0@ != k,
        ensures
            !Self::map_of(s).contains_key(k),
        decreases s.len(),
    {
        if s.len() > 0 {
            assert(forall|i: int|
                0 <= i < s.drop_last().len() ==> (#[trigger] s.drop_last()[i]).0@ != k);
            Self::lemma_map_of_absent(s.drop_last(), k);
        }
    }

    proof fn lemma_map_of_update(s: Seq<(String, T)>, i: int, e: (String, T))
        requires
            Self::keys_unique(s),
            0 <= i < s.len(),
            s[i].0@ == e.0@,
        ensures
            Self::map_of(s.update(i, e)) == Self::map_of(s).insert(e.0@, e.1@),
        decreases s.len(),
    {
        let su = s.update(i, e);
        if i + 1 == s.len() {
            assert(su.drop_last() =~= s.drop_last());
            assert(su.last() == e);
            assert(Self::map_of(s.drop_last()).insert(s.last().0@, s.last().1@).insert(e.0@, e.1@)
                =~= Self::map_of(s.drop_last()).insert(e.0@, e.1@));
        } else {
            assert(Self::keys_unique(s.drop_last()));
            assert(s.drop_last()[i] == s[i]);
            Self::lemma_map_of_update(s.drop_last(), i, e);
            assert(su.drop_last() =~= s.drop_last().update(i, e));
            assert(su.last() == s.last());
            assert(s.last().0@ != e.0@);
            assert(Self::map_of(s.drop_last()).insert(e.0@, e.1@).insert(s.last().0@, s.last().1@)
                =~= Self::map_of(s.drop_last()).insert(s.last().0@, s.last().1@).insert(
                e.0@,
                e.1@,
            ));
        }
    }

    /// Inserts `value` under `key`, overwriting any value the key held.
    pub fn insert(&mut self, key: String, value: T)
        ensures
            final(self)@ == old(self)@.insert(key@, value@),
    {
        proof {
            use_type_invariant(&*self);
        }
        let ghost s0 = self.entries@;
        let mut entries: Vec<(String, T)> = Vec::new();
        core::mem::swap(&mut entries, &mut self.entries);
        let n = entries.len();
        let mut i: usize = 0;
        while i < n
            invariant
                n == entries.len(),
                0 <= i <= n,
                entries@ == s0,
                old(self).entries@ == s0,
                Self::keys_unique(s0),
                forall|j: int| 0 <= j < i ==> (#[trigger] entries@[j]).0@ != key@,
            decreases n - i,
        {
            if str_eq(entries[i].0.as_str(), key.as_str()) {
                proof {
                    Self::lemma_map_of_update(s0, i as int, (key, value));
                }
                entries.set(i, (key, value));
                proof {
                    assert forall|a: int, b: int| 0 <= a < b < entries@.len() implies (
                    #[trigger] entries@[a]).0@ != (#[trigger] entries@[b]).0@ by {
                        assert(s0[a].0@ != s0[b].0@);
                        assert(entries@[a] == if a == i as int {
                            (key, value)
                        } else {
                            s0[a]
                        });
                        assert(entries@[b] == if b == i as int {
                            (key, value)
                        } else {
                            s0[b]
                        });
                    }
                }
                self.entries = entries;
                return ;
            }
            i = i + 1;
        }
        proof {
            assert(entries@.push((key, value)).drop_last() =~= entries@);
        }
        entries.push((key, value));
        self.entries = entries;
    }

    /// Looks `key` up; yields the held value exactly when the key is present.
    pub fn get(&self, key: &str) -> (r: Option<&T>)
        ensures
            match r {
                Some(v) => self@.contains_key(key@) && v@ == self@[key@],
                None => !self@.contains_key(key@),
            },
    {
        proof {
            use_type_invariant(&*self);
        }
        let n = self.entries.len();
        let mut i: usize = 0;
        while i < n
            invariant
                n == self.entries.len(),
                0 <= i <= n,
                Self::keys_unique(self.entries@),
                forall|j: int| 0 <= j < i ==> (#[trigger] self.entries@[j]).0@ != key@,
            decreases n - i,
        {
            if str_eq(self.entries[i].0.as_str(), key) {
                proof {
                    Self::lemma_map_of_get(self.entries@, i as int);
                }
                return Some(&self.entries[i].1);
            }
            i = i + 1;
        }
        proof {
            Self::lemma_map_of_absent(self.entries@, key@);
        }
        None
    }

    pub(crate) proof fn lemma_view_is_map_of(&self)
        ensures
            self@ == Self::map_of(self.entries@),
    {
    }

    /// The map's keys, in held order: each is present, no key is missing.
    pub fn keys(&self) -> (r: Vec<String>)
        ensures
            forall|j: int| 0 <= j < r@.len() ==> self@.contains_key((#[trigger] r@[j])@),
            forall|k: Seq<char>|
                self@.contains_key(k) ==> exists|j: int| 0 <= j < r@.len() && (#[trigger] r@[j])@
                    == k,
    {
        proof {
            use_type_invariant(&*self);
            self.lemma_view_is_map_of();
        }
        let n = self.entries.len();
        let mut out: Vec<String> = Vec::new();
        let mut i: usize = 0;
        while i < n
            invariant
                n == self.entries.len(),
                0 <= i <= n,
                out@.len() == i,
                Self::keys_unique(self.entries@),
                self@ == Self::map_of(self.entries@),
                forall|j: int| 0 <= j < i ==> (#[trigger] out@[j])@ == self.entries@[j].0@,
            decreases n - i,
        {
            out.push(self.entries[i].0.clone());
            i = i + 1;
        }
        proof {
            assert forall|j: int| 0 <= j < out@.len() implies self@.contains_key(
                (#[trigger] out@[j])@,
            ) by {
                Self::lemma_map_of_get(self.entries@, j);
            }
            assert forall|k: Seq<char>| self@.contains_key(k) implies exists|j: int|
                0 <= j < out@.len() && (#[trigger] out@[j])@ == k by {
                if forall|j: int|
                    0 <= j < self.entries@.len() ==> (#[trigger] self.entries@[j]).0@ != k {
                    Self::lemma_map_of_absent(self.entries@, k);
                } else {
                    let j = choose|j: int|
                        0 <= j < self.entries@.len() && !((#[trigger] self.entries@[j]).0@ != k);
                    assert(out@[j]@ == k);
                }
            }
        }
        out
    }

    /// Whether the map holds `key`.
    pub fn contains_key(&self, key: &str) -> (r: bool)
        ensures
            r == self@.contains_key(key@),
    {
        self.get(key).is_some()
    }
}

impl<T: View> View for AssocMap<T> {
    type V = Map<Seq<char>, T::V>;

    closed spec fn view(&self) -> Map<Seq<char>, T::V> {
        Self::map_of(self.entries@)
    }
}

impl AssocMap<String> {
    /// A copy with the same contents.
    pub fn duplicate(&self) -> (r: Self)
        ensures
            r@ == self@,
    {
        proof {
            use_type_invariant(&*self);
        }
        let n = self.entries.len();
        let mut out: Vec<(String, String)> = Vec::new();
        let mut i: usize = 0;
        while i < n
            invariant
                n == self.entries.len(),
                0 <= i <= n,
                out@ == self.entries@.take(i as int),
            decreases n - i,
        {
            out.push((self.entries[i].0.clone(), self.entries[i].1.clone()));
            proof {
                assert(self.entries@.take(i + 1) =~= self.entries@.take(i as int).push(
                    self.entries@[i as int],
                ));
            }
            i = i + 1;
        }
        proof {
            assert(self.entries@.take(n as int) =~= self.entries@);
        }
        AssocMap { entries: out }
    }
}

} // verus!
