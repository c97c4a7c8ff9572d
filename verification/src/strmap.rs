//! An insertion-ordered map with `String` keys, backed by an association
//! list. It models both the runtime target/action registries and the
//! session's element and screenshot accumulators.

use vstd::prelude::*;
use vstd::pervasive::VecAdditionalExecFns;
use crate::strutil::str_eq;

verus! {

/// An entry sequence holds key `k`.
pub open spec fn ahas<T>(s: Seq<(Seq<char>, T)>, k: Seq<char>) -> bool {
    exists|i: int| 0 <= i < s.len() && s[i].0 == k
}

/// The index of key `k` in an entry sequence (unique when keys are unique).
pub open spec fn aidx<T>(s: Seq<(Seq<char>, T)>, k: Seq<char>) -> int {
    choose|i: int| 0 <= i < s.len() && s[i].0 == k
}

/// The value under key `k` in an entry sequence.
pub open spec fn aget<T>(s: Seq<(Seq<char>, T)>, k: Seq<char>) -> T {
    s[aidx(s, k)].1
}

/// All keys of an entry sequence are distinct.
pub open spec fn auniq<T>(s: Seq<(Seq<char>, T)>) -> bool {
    forall|i: int, j: int| 0 <= i < j < s.len() ==> s[i].0 != s[j].0
}

/// Inserting under `k` replaces the existing entry in place, or appends.
pub open spec fn ainsert<T>(s: Seq<(Seq<char>, T)>, k: Seq<char>, v: T) -> Seq<
    (Seq<char>, T),
> {
    if ahas(s, k) {
        s.update(aidx(s, k), (k, v))
    } else {
        s.push((k, v))
    }
}

/// Inserting keeps the keys distinct.
pub proof fn lemma_ainsert_uniq<T>(s: Seq<(Seq<char>, T)>, k: Seq<char>, v: T)
    requires
        auniq(s),
    ensures
        auniq(ainsert(s, k, v)),
{
    if ahas(s, k) {
        let w = aidx(s, k);
        assert(0 <= w < s.len() && s[w].0 == k);
        let r = s.update(w, (k, v));
        assert forall|i: int, j: int| 0 <= i < j < r.len() implies r[i].0 != r[j].0 by {
            assert(r[i].0 == s[i].0 && r[j].0 == s[j].0);
        }
    } else {
        let r = s.push((k, v));
        assert forall|i: int, j: int| 0 <= i < j < r.len() implies r[i].0 != r[j].0 by {
            if j == s.len() {
                assert(r[i].0 == s[i].0);
                if s[i].0 == k {
                    assert(ahas(s, k));
                }
            } else {
                assert(r[i].0 == s[i].0 && r[j].0 == s[j].0);
            }
        }
    }
}

/// An insertion-ordered map with string keys. Inserting an existing key
/// replaces its value in place; a new key is appended at the end.
pub struct StrMap<V: DeepView> {
    list: Vec<(String, V)>,
}

impl<V: DeepView> View for StrMap<V> {
    type V = Seq<(Seq<char>, <V as DeepView>::V)>;

    closed spec fn view(&self) -> Seq<(Seq<char>, <V as DeepView>::V)> {
        Seq::new(
            self.list@.len(),
            |i: int| (self.list@[i].0@, self.list@[i].1.deep_view()),
        )
    }
}

impl<V: DeepView> DeepView for StrMap<V> {
    type V = Seq<(Seq<char>, <V as DeepView>::V)>;

    open spec fn deep_view(&self) -> Seq<(Seq<char>, <V as DeepView>::V)> {
        self.view()
    }
}

impl<V: DeepView> StrMap<V> {
    /// An empty map.
    pub fn new() -> (r: Self)
        ensures
            r@ == Seq::<(Seq<char>, <V as DeepView>::V)>::empty(),
    {
        let r = StrMap { list: Vec::new() };
        proof {
            assert(r@ =~= Seq::<(Seq<char>, <V as DeepView>::V)>::empty());
        }
        r
    }

    /// The number of entries.
    pub fn len(&self) -> (n: usize)
        ensures
            n == self@.len(),
    {
        self.list.len()
    }

    /// Whether key `k` is present.
    pub fn contains_key(&self, k: &str) -> (r: bool)
        ensures
            r == ahas(self@, k@),
    {
        let n = self.list.len();
        let mut i: usize = 0;
        while i < n
            invariant
                n == self.list@.len(),
                n == self@.len(),
                0 <= i <= n,
                forall|j: int| 0 <= j < i ==> self@[j].0 != k@,
                forall|j: int| 0 <= j < n ==> self@[j].0 == self.list@[j].0@,
            decreases n - i,
        {
            if str_eq(self.list[i].0.as_str(), k) {
                proof {
                    assert(self@[i as int].0 == k@);
                }
                return true;
            }
            i = i + 1;
        }
        false
    }

    /// Looks a key up: `Some` exactly when the key is present, and then the
    /// entry's value.
    pub fn get<'a>(&'a self, k: &str) -> (r: Option<&'a V>)
        requires
            auniq(self@),
        ensures
            match r {
                Option::Some(v) => ahas(self@, k@) && v.deep_view() == aget(self@, k@),
                Option::None => !ahas(self@, k@),
            },
    {
        let n = self.list.len();
        let mut i: usize = 0;
        while i < n
            invariant
                auniq(self@),
                n == self.list@.len(),
                n == self@.len(),
                0 <= i <= n,
                forall|j: int| 0 <= j < i ==> self@[j].0 != k@,
                forall|j: int| 0 <= j < n ==> self@[j].0 == self.list@[j].0@
                    && self@[j].1 == self.list@[j].1.deep_view(),
            decreases n - i,
        {
            if str_eq(self.list[i].0.as_str(), k) {
                proof {
                    assert(self@[i as int].0 == k@);
                    let w = aidx(self@, k@);
                    assert(0 <= w < self@.len() && self@[w].0 == k@);
                    assert(w == i as int);
                }
                return Some(&self.list[i].1);
            }
            i = i + 1;
        }
        None
    }

    /// Inserts `v` under `k`: replaces the value of an existing entry in
    /// place, otherwise appends a new entry.
    pub fn insert(&mut self, k: String, v: V)
        requires
            auniq(old(self)@),
        ensures
            final(self)@ == ainsert(old(self)@, k@, v.deep_view()),
            auniq(final(self)@),
    {
        let ghost s0 = self@;
        let n = self.list.len();
        let mut i: usize = 0;
        while i < n
            invariant
                auniq(s0),
                s0 == old(self)@,
                self@ == s0,
                n == self.list@.len(),
                n == self@.len(),
                0 <= i <= n,
                forall|j: int| 0 <= j < i ==> self@[j].0 != k@,
                forall|j: int| 0 <= j < n ==> self@[j].0 == self.list@[j].0@
                    && self@[j].1 == self.list@[j].1.deep_view(),
            decreases n - i,
        {
            if str_eq(self.list[i].0.as_str(), k.as_str()) {
                let ghost target = ainsert(s0, k@, v.deep_view());
                proof {
                    assert(s0[i as int].0 == k@);
                    assert(ahas(s0, k@));
                    let w = aidx(s0, k@);
                    assert(0 <= w < s0.len() && s0[w].0 == k@);
                    assert(w == i as int);
                    assert(target == s0.update(i as int, (k@, v.deep_view())));
                }
                let ghost dv = v.deep_view();
                self.list.set(i, (k, v));
                proof {
                    assert(self@ =~= s0.update(i as int, (k@, dv)));
                    assert(auniq(self@));
                }
                return ;
            }
            i = i + 1;
        }
        proof {
            assert(!ahas(s0, k@));
        }
        let ghost dv = v.deep_view();
        self.list.push((k, v));
        proof {
            assert(self@ =~= s0.push((k@, dv)));
        }
    }

    /// Removes and returns all entries, leaving the map empty.
    pub fn take(&mut self) -> (r: Self)
        ensures
            r@ == old(self)@,
            final(self)@ == Seq::<(Seq<char>, <V as DeepView>::V)>::empty(),
    {
        let mut other: StrMap<V> = StrMap::new();
        core::mem::swap(&mut self.list, &mut other.list);
        proof {
            assert(other@ =~= old(self)@);
            assert(self@ =~= Seq::<(Seq<char>, <V as DeepView>::V)>::empty());
        }
        other
    }

    /// The entry at position `i`, in insertion order.
    pub fn entry_at<'a>(&'a self, i: usize) -> (r: (&'a String, &'a V))
        requires
            i < self@.len(),
        ensures
            r.0@ == self@[i as int].0,
            r.1.deep_view() == self@[i as int].1,
    {
        (&self.list[i].0, &self.list[i].1)
    }
}

} // verus!
