//! A small store holding one value per key.
use vstd::prelude::*;
use crate::authority::{same_target, AuthGrantTarget};
use crate::protocol::TargetView;

verus! {

/// A key of a store: it has an abstract value, and keys are told apart by it.
pub trait StoreKey: Sized {
    type KeyView;

    spec fn key_view(&self) -> Self::KeyView;

    fn same_key(&self, other: &Self) -> (r: bool)
        ensures
            r == (self.key_view() == other.key_view());
}

impl StoreKey for AuthGrantTarget {
    type KeyView = TargetView;

    open spec fn key_view(&self) -> TargetView {
        self@
    }

    fn same_key(&self, other: &Self) -> (r: bool) {
        same_target(self, other)
    }
}

impl StoreKey for String {
    type KeyView = Seq<char>;

    open spec fn key_view(&self) -> Seq<char> {
        self@
    }

    fn same_key(&self, other: &Self) -> (r: bool) {
        self.eq(other)
    }
}

/// One value per key; inserting for a present key replaces its value.
pub struct KeyedStore<K: StoreKey, V> {
    entries: Vec<(K, V)>,
}

/// A store keyed by authenticated-session target.
pub type TargetStore<V> = KeyedStore<AuthGrantTarget, V>;

spec fn ekey<K: StoreKey, V>(e: (K, V)) -> K::KeyView {
    e.0.key_view()
}

spec fn edistinct<K: StoreKey, V>(s: Seq<(K, V)>) -> bool {
    forall|i: int, j: int|
        0 <= i < s.len() && 0 <= j < s.len() && i != j ==> ekey(#[trigger] s[i]) != ekey(
            #[trigger] s[j],
        )
}

spec fn ekey_at<K: StoreKey, V>(s: Seq<(K, V)>, k: K::KeyView, i: int) -> bool {
    0 <= i < s.len() && ekey(s[i]) == k
}

spec fn emap<K: StoreKey, V>(s: Seq<(K, V)>) -> Map<K::KeyView, V> {
    Map::new(
        |k: K::KeyView| exists|i: int| ekey_at(s, k, i),
        |k: K::KeyView| s[choose|i: int| ekey_at(s, k, i)].1,
    )
}

proof fn lemma_emap_index<K: StoreKey, V>(s: Seq<(K, V)>, i: int)
    requires
        edistinct(s),
        0 <= i < s.len(),
    ensures
        emap(s).contains_key(ekey(s[i])),
        emap(s)[ekey(s[i])] == s[i].1,
{
    let k = ekey(s[i]);
    assert(ekey_at(s, k, i));
    let c = choose|c: int| ekey_at(s, k, c);
    assert(c == i) by {
        if c != i {
            assert(ekey(s[c]) != ekey(s[i]));
        }
    }
}

proof fn lemma_emap_remove<K: StoreKey, V>(s: Seq<(K, V)>, i: int)
    requires
        edistinct(s),
        0 <= i < s.len(),
    ensures
        edistinct(s.remove(i)),
        emap(s.remove(i)) =~= emap(s).remove(ekey(s[i])),
{
    let t = s.remove(i);
    assert forall|a: int, b: int|
        0 <= a < t.len() && 0 <= b < t.len() && a != b implies ekey(#[trigger] t[a]) != ekey(
        #[trigger] t[b],
    ) by {
        let a2 = if a < i { a } else { a + 1 };
        let b2 = if b < i { b } else { b + 1 };
        assert(t[a] == s[a2] && t[b] == s[b2]);
    }
    let m = emap(s).remove(ekey(s[i]));
    assert forall|k: K::KeyView| #[trigger] emap(t).contains_key(k) == m.contains_key(k) by {
        if emap(t).contains_key(k) {
            let j = choose|j: int| ekey_at(t, k, j);
            let j2 = if j < i { j } else { j + 1 };
            assert(t[j] == s[j2]);
            assert(ekey_at(s, k, j2));
            assert(ekey(s[j2]) != ekey(s[i]));
        }
        if m.contains_key(k) {
            let j = choose|j: int| ekey_at(s, k, j);
            assert(j != i);
            let j2 = if j < i { j } else { j - 1 };
            assert(t[j2] == s[j]);
            assert(ekey_at(t, k, j2));
        }
    }
    assert forall|k: K::KeyView| #[trigger] emap(t).contains_key(k) implies emap(t)[k] == m[k] by {
        let j = choose|j: int| ekey_at(t, k, j);
        lemma_emap_index(t, j);
        let j2 = if j < i { j } else { j + 1 };
        assert(t[j] == s[j2]);
        lemma_emap_index(s, j2);
    }
}

proof fn lemma_emap_push<K: StoreKey, V>(s: Seq<(K, V)>, e: (K, V))
    requires
        edistinct(s),
        forall|i: int| 0 <= i < s.len() ==> ekey(#[trigger] s[i]) != ekey(e),
    ensures
        edistinct(s.push(e)),
        emap(s.push(e)) =~= emap(s).insert(ekey(e), e.1),
{
    let t = s.push(e);
    let n = s.len() as int;
    assert forall|a: int, b: int|
        0 <= a < t.len() && 0 <= b < t.len() && a != b implies ekey(#[trigger] t[a]) != ekey(
        #[trigger] t[b],
    ) by {
        if a < n && b < n {
            assert(t[a] == s[a] && t[b] == s[b]);
        } else if a < n {
            assert(t[a] == s[a]);
        } else {
            assert(t[b] == s[b]);
        }
    }
    let m = emap(s).insert(ekey(e), e.1);
    assert forall|k: K::KeyView| #[trigger] emap(t).contains_key(k) == m.contains_key(k) by {
        if emap(t).contains_key(k) {
            let j = choose|j: int| ekey_at(t, k, j);
            if j < n {
                assert(ekey_at(s, k, j));
            }
        }
        if emap(s).contains_key(k) {
            let j = choose|j: int| ekey_at(s, k, j);
            assert(ekey_at(t, k, j));
        }
        if k == ekey(e) {
            assert(ekey_at(t, k, n));
        }
    }
    assert forall|k: K::KeyView| #[trigger] emap(t).contains_key(k) implies emap(t)[k] == m[k] by {
        let j = choose|j: int| ekey_at(t, k, j);
        lemma_emap_index(t, j);
        if j < n {
            lemma_emap_index(s, j);
            assert(t[j] == s[j]);
        }
    }
}

impl<K: StoreKey, V> View for KeyedStore<K, V> {
    type V = Map<K::KeyView, V>;

    closed spec fn view(&self) -> Map<K::KeyView, V> {
        emap(self.entries@)
    }
}

impl<K: StoreKey, V> KeyedStore<K, V> {
    /// The internal invariant: one entry per target.
    pub closed spec fn wf(&self) -> bool {
        edistinct(self.entries@)
    }

    /// An empty store.
    pub fn new() -> (s: Self)
        ensures
            s.wf(),
            s@ == Map::<K::KeyView, V>::empty(),
    {
        let s = KeyedStore { entries: Vec::new() };
        assert(s@ =~= Map::<K::KeyView, V>::empty());
        s
    }

    fn find(&self, target: &K) -> (r: Option<usize>)
        requires
            self.wf(),
        ensures
            match r {
                Some(i) => i < self.entries@.len() && ekey(self.entries@[i as int]) == target.key_view()
                    && self@.contains_key(target.key_view()) && self@[target.key_view()] == self.entries@[i as int].1,
                None => !self@.contains_key(target.key_view()) && forall|j: int|
                    0 <= j < self.entries@.len() ==> ekey(#[trigger] self.entries@[j])
                        != target.key_view(),
            },
    {
        let mut i: usize = 0;
        while i < self.entries.len()
            invariant
                i <= self.entries@.len(),
                self.wf(),
                forall|j: int| 0 <= j < i ==> ekey(#[trigger] self.entries@[j]) != target.key_view(),
            decreases self.entries@.len() - i,
        {
            if self.entries[i].0.same_key(target) {
                proof {
                    lemma_emap_index(self.entries@, i as int);
                }
                return Some(i);
            }
            i += 1;
        }
        proof {
            if self@.contains_key(target.key_view()) {
                let j = choose|j: int| ekey_at(self.entries@, target.key_view(), j);
                assert(ekey(self.entries@[j]) != target.key_view());
            }
        }
        None
    }

    /// The value held for `target`.
    pub fn get(&self, target: &K) -> (v: Option<&V>)
        requires
            self.wf(),
        ensures
            match v {
                Some(v) => self@.contains_key(target.key_view()) && self@[target.key_view()] == *v,
                None => !self@.contains_key(target.key_view()),
            },
    {
        match self.find(target) {
            Some(i) => Some(&self.entries[i].1),
            None => None,
        }
    }

    /// Removes the value held for `target`, returning it.
    pub fn remove(&mut self, target: &K) -> (v: Option<V>)
        requires
            old(self).wf(),
        ensures
            final(self).wf(),
            final(self)@ == old(self)@.remove(target.key_view()),
            match v {
                Some(v) => old(self)@.contains_key(target.key_view()) && old(self)@[target.key_view()] == v,
                None => !old(self)@.contains_key(target.key_view()),
            },
    {
        match self.find(target) {
            Some(i) => {
                let ghost s = self.entries@;
                let (_, v) = self.entries.remove(i);
                proof {
                    lemma_emap_remove(s, i as int);
                }
                Some(v)
            },
            None => {
                assert(self@ =~= self@.remove(target.key_view()));
                None
            },
        }
    }

    /// Holds `value` for `target`, replacing any earlier value.
    pub fn insert(&mut self, target: K, value: V)
        requires
            old(self).wf(),
        ensures
            final(self).wf(),
            final(self)@ == old(self)@.insert(target.key_view(), value),
    {
        let _ = self.remove(&target);
        let ghost s = self.entries@;
        let ghost k = target.key_view();
        self.entries.push((target, value));
        proof {
            assert forall|i: int| 0 <= i < s.len() implies ekey(#[trigger] s[i]) != k by {
                lemma_emap_index(s, i);
            }
            lemma_emap_push(s, self.entries@.last());
            assert(self.entries@ == s.push(self.entries@.last()));
        }
    }
}

} // verus!
