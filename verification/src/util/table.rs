//! Small ordered containers keyed by value.
//!
//! Both containers keep their items in insertion order, so walking one is
//! deterministic. Items are told apart by their views.
use vstd::prelude::*;

verus! {

/// A value that can be compared and copied by its view.
pub trait Key: View + Sized {
    /// Tells whether two keys have the same view.
    fn same(&self, other: &Self) -> (r: bool)
        ensures
            r == (self@ == other@),
    ;

    /// Makes a copy with the same view.
    fn replica(&self) -> (r: Self)
        ensures
            r@ == self@,
    ;
}

impl Key for i64 {
    fn same(&self, other: &Self) -> (r: bool) {
        *self == *other
    }

    fn replica(&self) -> (r: Self) {
        *self
    }
}

impl Key for String {
    fn same(&self, other: &Self) -> (r: bool) {
        *self == *other
    }

    fn replica(&self) -> (r: Self) {
        self.clone()
    }
}

impl<A: Key, B: Key> Key for (A, B) {
    fn same(&self, other: &Self) -> (r: bool) {
        self.0.same(&other.0) && self.1.same(&other.1)
    }

    fn replica(&self) -> (r: Self) {
        (self.0.replica(), self.1.replica())
    }
}

/// `Vec::shrink_to_fit` gives back the room that a vector does not use; the
/// items stay as they are.
#[verifier::external_body]
pub(crate) fn shrink<T>(v: &mut Vec<T>)
    ensures
        final(v)@ == old(v)@,
{
    v.shrink_to_fit()
}

/// The views of a sequence of keys.
pub open spec fn views<T: View>(items: Seq<T>) -> Seq<T::V> {
    items.map_values(|x: T| x@)
}

/// A set of keys, kept in the order in which they were first inserted.
#[derive(Debug)]
pub struct VecSet<T: Key> {
    items: Vec<T>,
}

impl<T: Key> View for VecSet<T> {
    type V = Set<T::V>;

    closed spec fn view(&self) -> Set<T::V> {
        views(self.items@).to_set()
    }
}

impl<T: Key> VecSet<T> {
    /// No two items have the same view.
    pub closed spec fn wf(&self) -> bool {
        views(self.items@).no_duplicates()
    }

    /// The views of the items, in insertion order.
    pub closed spec fn order(&self) -> Seq<T::V> {
        views(self.items@)
    }

    /// The items themselves, in insertion order.
    pub closed spec fn items(&self) -> Seq<T> {
        self.items@
    }

    /// What holds of every well-formed set: its order lists each member once.
    pub proof fn lemma_order(&self)
        requires
            self.wf(),
        ensures
            self.order().no_duplicates(),
            self.order().to_set() == self@,
            self.order().len() == self@.len(),
            self@.finite(),
            self.order() == views(self.items()),
            self.items().len() == self.order().len(),
            forall|v: T::V| self@.contains(v) <==> self.order().contains(v),
    {
        self.order().unique_seq_to_set();
    }

    /// The number of members.
    pub fn len(&self) -> (n: usize)
        requires
            self.wf(),
        ensures
            n == self@.len(),
            n == self.order().len(),
    {
        proof {
            self.lemma_order();
        }
        self.items.len()
    }

    /// An empty set.
    pub fn new() -> (s: Self)
        ensures
            s.wf(),
            s@ == Set::<T::V>::empty(),
            s.order() == Seq::<T::V>::empty(),
    {
        let s = VecSet { items: Vec::new() };
        assert(views(s.items@) =~= Seq::<T::V>::empty());
        assert(s@ =~= Set::<T::V>::empty());
        s
    }

    /// An empty set with room for `cap` members.
    pub fn with_capacity(cap: usize) -> (s: Self)
        ensures
            s.wf(),
            s@ == Set::<T::V>::empty(),
            s.order() == Seq::<T::V>::empty(),
    {
        let s = VecSet { items: Vec::with_capacity(cap) };
        assert(views(s.items@) =~= Seq::<T::V>::empty());
        assert(s@ =~= Set::<T::V>::empty());
        s
    }

    /// Gives back the room that the set does not use.
    pub fn shrink_to_fit(&mut self)
        ensures
            final(self).wf() == old(self).wf(),
            final(self)@ == old(self)@,
            final(self).order() == old(self).order(),
            final(self).items() == old(self).items(),
    {
        shrink(&mut self.items);
    }

    /// Whether the set has no member.
    pub fn is_empty(&self) -> (b: bool)
        requires
            self.wf(),
        ensures
            b == (self@ == Set::<T::V>::empty()),
            b == (self.order().len() == 0),
    {
        proof {
            self.lemma_order();
            if self.items@.len() == 0 {
                assert(self@ =~= Set::<T::V>::empty());
            } else {
                assert(self.order()[0] == self.items@[0]@);
                assert(self@.contains(self.order()[0]));
            }
        }
        self.items.len() == 0
    }

    /// The member at a position of the insertion order.
    pub fn get(&self, i: usize) -> (x: &T)
        requires
            i < self.order().len(),
        ensures
            x@ == self.order()[i as int],
            *x == self.items()[i as int],
    {
        &self.items[i]
    }

    /// The position of a member in the insertion order, if it is one.
    pub fn position(&self, x: &T) -> (r: Option<usize>)
        ensures
            r is Some <==> self@.contains(x@),
            r matches Some(i) ==> i < self.order().len() && self.order()[i as int] == x@,
    {
        let mut i: usize = 0;
        while i < self.items.len()
            invariant
                i <= self.items@.len(),
                forall|j: int| 0 <= j < i ==> views(self.items@)[j] != x@,
            decreases self.items@.len() - i,
        {
            if self.items[i].same(x) {
                assert(views(self.items@)[i as int] == x@);
                return Some(i);
            }
            i += 1;
        }
        assert(!views(self.items@).contains(x@));
        None
    }

    /// Whether a key is a member.
    pub fn contains(&self, x: &T) -> (b: bool)
        ensures
            b == self@.contains(x@),
    {
        self.position(x).is_some()
    }

    /// Adds a key. Returns whether it was new.
    pub fn insert(&mut self, x: T) -> (fresh: bool)
        requires
            old(self).wf(),
        ensures
            final(self).wf(),
            fresh == !old(self)@.contains(x@),
            final(self)@ == old(self)@.insert(x@),
            fresh ==> final(self).order() == old(self).order().push(x@),
            fresh ==> final(self).items() == old(self).items().push(x),
            !fresh ==> final(self).order() == old(self).order(),
            !fresh ==> final(self).items() == old(self).items(),
    {
        if self.contains(&x) {
            assert(self@ =~= self@.insert(x@));
            false
        } else {
            let ghost before = self.items@;
            self.items.push(x);
            proof {
                assert(views(self.items@) =~= views(before).push(x@));
                assert(views(before).push(x@).to_set() =~= views(before).to_set().insert(x@)) by {
                    let s = views(before);
                    assert forall|v: T::V| s.push(x@).contains(v) <==> (s.contains(v) || v == x@) by {
                        if s.contains(v) {
                            let k = choose|k: int| 0 <= k < s.len() && s[k] == v;
                            assert(s.push(x@)[k] == v);
                        }
                        if v == x@ {
                            assert(s.push(x@)[s.len() as int] == v);
                        }
                    }
                }
            }
            true
        }
    }

    /// Removes a key. Returns whether it was a member.
    pub fn remove(&mut self, x: &T) -> (found: bool)
        requires
            old(self).wf(),
        ensures
            final(self).wf(),
            found == old(self)@.contains(x@),
            final(self)@ == old(self)@.remove(x@),
            !found ==> final(self).order() == old(self).order(),
            found ==> final(self).order() == old(self).order().remove(
                old(self).order().index_of(x@),
            ),
    {
        match self.position(x) {
            None => {
                assert(self@ =~= self@.remove(x@));
                false
            },
            Some(i) => {
                let ghost before = self.items@;
                let ghost s = views(before);
                proof {
                    s.index_of_first_ensures(x@);
                    assert(s.index_of(x@) == i);
                }
                self.items.remove(i);
                proof {
                    assert(views(self.items@) =~= s.remove(i as int));
                    let t = s.remove(i as int);
                    assert forall|a: int, b: int| 0 <= a < b < t.len() implies t[a] != t[b] by {
                        let a2 = if a < i { a } else { a + 1 };
                        let b2 = if b < i { b } else { b + 1 };
                        assert(t[a] == s[a2] && t[b] == s[b2]);
                    }
                    assert(t.to_set() =~= s.to_set().remove(x@)) by {
                        assert forall|v: T::V| t.contains(v) <==> (s.contains(v) && v != x@) by {
                            if t.contains(v) {
                                let k = choose|k: int| 0 <= k < t.len() && t[k] == v;
                                let k2 = if k < i { k } else { k + 1 };
                                assert(s[k2] == v);
                            }
                            if s.contains(v) && v != x@ {
                                let k = choose|k: int| 0 <= k < s.len() && s[k] == v;
                                let k2 = if k < i { k } else { k - 1 };
                                assert(t[k2] == v);
                            }
                        }
                    }
                }
                true
            },
        }
    }

    /// Removes every member.
    pub fn clear(&mut self)
        ensures
            final(self).wf(),
            final(self)@ == Set::<T::V>::empty(),
            final(self).order() == Seq::<T::V>::empty(),
    {
        self.items.clear();
        assert(views(self.items@) =~= Seq::<T::V>::empty());
        assert(self@ =~= Set::<T::V>::empty());
    }

    /// A copy of the set, with the same members in the same order.
    pub fn replica(&self) -> (r: Self)
        requires
            self.wf(),
        ensures
            r.wf(),
            r@ == self@,
            r.order() == self.order(),
    {
        let mut items: Vec<T> = Vec::new();
        let mut i: usize = 0;
        while i < self.items.len()
            invariant
                i <= self.items@.len(),
                views(items@) == views(self.items@).take(i as int),
            decreases self.items@.len() - i,
        {
            let ghost before = items@;
            items.push(self.items[i].replica());
            proof {
                assert(views(items@) =~= views(before).push(self.items@[i as int]@));
                assert(views(self.items@).take(i as int + 1) =~= views(self.items@).take(
                    i as int,
                ).push(self.items@[i as int]@));
            }
            i += 1;
        }
        proof {
            assert(views(self.items@).take(i as int) =~= views(self.items@));
        }
        VecSet { items }
    }

    /// Adds every member of `other`.
    pub fn extend(&mut self, other: &Self)
        requires
            old(self).wf(),
            other.wf(),
        ensures
            final(self).wf(),
            final(self)@ == old(self)@.union(other@),
    {
        let n = other.len();
        let mut i: usize = 0;
        proof {
            other.lemma_order();
            assert(other.order().take(0).to_set() =~= Set::<T::V>::empty());
            assert(self@.union(Set::<T::V>::empty()) =~= self@);
        }
        while i < n
            invariant
                i <= n,
                n == other.order().len(),
                other.wf(),
                self.wf(),
                self@ == old(self)@.union(other.order().take(i as int).to_set()),
            decreases n - i,
        {
            let item = other.get(i).replica();
            proof {
                let done = other.order().take(i as int);
                let next = other.order().take(i as int + 1);
                assert(next =~= done.push(item@));
                assert(next.to_set() =~= done.to_set().insert(item@)) by {
                    assert forall|v: T::V| next.contains(v) <==> (done.contains(v) || v
                        == item@) by {
                        if next.contains(v) {
                            let k = choose|k: int| 0 <= k < next.len() && next[k] == v;
                            if k < done.len() {
                                assert(done[k] == v);
                            }
                        }
                        if done.contains(v) {
                            let k = choose|k: int| 0 <= k < done.len() && done[k] == v;
                            assert(next[k] == v);
                        }
                        if v == item@ {
                            assert(next[done.len() as int] == v);
                        }
                    }
                }
                assert(old(self)@.union(done.to_set()).insert(item@) =~= old(self)@.union(
                    next.to_set(),
                ));
            }
            self.insert(item);
            i += 1;
        }
        proof {
            other.lemma_order();
            assert(other.order().take(n as int) =~= other.order());
        }
    }

    /// The members of `self` that are also members of `other`, in the order
    /// of `self`.
    pub fn intersection(&self, other: &Self) -> (d: Self)
        requires
            self.wf(),
            other.wf(),
        ensures
            d.wf(),
            d@ == self@.intersect(other@),
    {
        let rest = self.difference(other);
        let d = self.difference(&rest);
        assert(d@ =~= self@.intersect(other@));
        d
    }

    /// The members of `self` that are not members of `other`, in the order of
    /// `self`.
    pub fn difference(&self, other: &Self) -> (d: Self)
        requires
            self.wf(),
        ensures
            d.wf(),
            d@ == self@.difference(other@),
            d.order() == self.order().filter(|v: T::V| !other@.contains(v)),
    {
        let ghost keep = |v: T::V| !other@.contains(v);
        let mut items: Vec<T> = Vec::new();
        let mut i: usize = 0;
        while i < self.items.len()
            invariant
                i <= self.items@.len(),
                keep == (|v: T::V| !other@.contains(v)),
                views(items@) == views(self.items@).take(i as int).filter(keep),
            decreases self.items@.len() - i,
        {
            proof {
                let s = views(self.items@);
                assert(s.take(i as int + 1) =~= s.take(i as int).push(s[i as int]));
                filter_push(s.take(i as int), s[i as int], keep);
            }
            if !other.contains(&self.items[i]) {
                let ghost before = items@;
                items.push(self.items[i].replica());
                proof {
                    assert(views(items@) =~= views(before).push(self.items@[i as int]@));
                }
            }
            i += 1;
        }
        proof {
            let s = views(self.items@);
            assert(s.take(i as int) =~= s);
            filter_keeps_distinct(s, keep);
            assert(s.filter(keep).to_set() =~= s.to_set().difference(other@)) by {
                assert forall|v: T::V| s.filter(keep).contains(v) <==> (s.contains(v) && keep(v)) by {
                    filter_members(s, keep, v);
                }
            }
        }
        VecSet { items }
    }
}

/// A map from keys to values, kept in the order in which the keys were first
/// inserted.
#[derive(Debug)]
pub struct VecMap<K: Key, V> {
    keys: Vec<K>,
    values: Vec<V>,
}

impl<K: Key, V> View for VecMap<K, V> {
    type V = Map<K::V, V>;

    closed spec fn view(&self) -> Map<K::V, V> {
        Map::new(
            |k: K::V| views(self.keys@).contains(k),
            |k: K::V| self.values@[views(self.keys@).index_of(k)],
        )
    }
}

impl<K: Key, V> VecMap<K, V> {
    /// No two keys have the same view, and each key has its value.
    pub closed spec fn wf(&self) -> bool {
        &&& views(self.keys@).no_duplicates()
        &&& self.keys@.len() == self.values@.len()
    }

    /// The views of the keys, in insertion order.
    pub closed spec fn keys(&self) -> Seq<K::V> {
        views(self.keys@)
    }

    /// The values, in the order of their keys.
    pub closed spec fn values(&self) -> Seq<V> {
        self.values@
    }

    /// How the map relates to its keys and values.
    pub proof fn lemma_entries(&self)
        requires
            self.wf(),
        ensures
            self.keys().no_duplicates(),
            self.keys().len() == self.values().len(),
            self@.dom() == self.keys().to_set(),
            self@.dom().finite(),
            self@.dom().len() == self.keys().len(),
            forall|k: K::V| self@.contains_key(k) <==> self.keys().contains(k),
            forall|i: int|
                0 <= i < self.keys().len() ==> self@.contains_key(#[trigger] self.keys()[i])
                    && self@[self.keys()[i]] == self.values()[i],
    {
        let ks = self.keys();
        ks.unique_seq_to_set();
        assert(self@.dom() =~= ks.to_set());
        assert forall|i: int| 0 <= i < ks.len() implies self@.contains_key(#[trigger] ks[i])
            && self@[ks[i]] == self.values()[i] by {
            ks.index_of_first_ensures(ks[i]);
        }
    }

    /// An empty map.
    pub fn new() -> (m: Self)
        ensures
            m.wf(),
            m@ == Map::<K::V, V>::empty(),
            m.keys() == Seq::<K::V>::empty(),
            m.values() == Seq::<V>::empty(),
    {
        let m = VecMap { keys: Vec::new(), values: Vec::new() };
        assert(views(m.keys@) =~= Seq::<K::V>::empty());
        assert(m@ =~= Map::<K::V, V>::empty());
        m
    }

    /// An empty map with room for `cap` entries.
    pub fn with_capacity(cap: usize) -> (m: Self)
        ensures
            m.wf(),
            m@ == Map::<K::V, V>::empty(),
            m.keys() == Seq::<K::V>::empty(),
            m.values() == Seq::<V>::empty(),
    {
        let m = VecMap { keys: Vec::with_capacity(cap), values: Vec::with_capacity(cap) };
        assert(views(m.keys@) =~= Seq::<K::V>::empty());
        assert(m@ =~= Map::<K::V, V>::empty());
        m
    }

    /// Gives back the room that the map does not use.
    pub fn shrink_to_fit(&mut self)
        ensures
            final(self).wf() == old(self).wf(),
            final(self)@ == old(self)@,
            final(self).keys() == old(self).keys(),
            final(self).values() == old(self).values(),
    {
        shrink(&mut self.keys);
        shrink(&mut self.values);
    }

    /// Puts a value at a position of the insertion order and hands back the
    /// value that stood there.
    pub fn swap_value_at(&mut self, i: usize, v: V) -> (previous: V)
        requires
            old(self).wf(),
            i < old(self).keys().len(),
        ensures
            final(self).wf(),
            previous == old(self).values()[i as int],
            final(self).keys() == old(self).keys(),
            final(self).values() == old(self).values().update(i as int, v),
            final(self)@ == old(self)@.insert(old(self).keys()[i as int], v),
    {
        let ghost before = *self;
        proof {
            before.lemma_entries();
        }
        self.values.push(v);
        let previous = self.values.swap_remove(i);
        proof {
            assert(self.keys@ == before.keys@);
            assert(self.values@ =~= before.values@.update(i as int, v));
            assert(self.wf());
            self.lemma_entries();
            let ks = self.keys();
            assert(self@ =~= before@.insert(ks[i as int], v)) by {
                assert forall|k: K::V| self@.contains_key(k) implies #[trigger] self@[k]
                    == before@.insert(ks[i as int], v)[k] by {
                    ks.index_of_first_ensures(k);
                    let j = ks.index_of(k);
                    assert(ks[j] == k);
                    if j == i {
                    } else {
                        assert(k != ks[i as int]);
                    }
                }
            }
        }
        previous
    }

    /// The number of entries.
    pub fn len(&self) -> (n: usize)
        requires
            self.wf(),
        ensures
            n == self.keys().len(),
            n == self.values().len(),
            n == self@.dom().len(),
    {
        proof {
            self.lemma_entries();
        }
        self.keys.len()
    }

    /// The position of a key in the insertion order, if the map has it.
    pub fn position(&self, k: &K) -> (r: Option<usize>)
        requires
            self.wf(),
        ensures
            r is Some <==> self@.contains_key(k@),
            r matches Some(i) ==> i < self.keys().len() && self.keys()[i as int] == k@
                && self@[k@] == self.values()[i as int],
    {
        let mut i: usize = 0;
        while i < self.keys.len()
            invariant
                self.wf(),
                i <= self.keys@.len(),
                forall|j: int| 0 <= j < i ==> views(self.keys@)[j] != k@,
            decreases self.keys@.len() - i,
        {
            if self.keys[i].same(k) {
                proof {
                    assert(views(self.keys@)[i as int] == k@);
                    self.lemma_entries();
                }
                return Some(i);
            }
            i += 1;
        }
        assert(!views(self.keys@).contains(k@));
        None
    }

    /// Whether the map has a key.
    pub fn contains_key(&self, k: &K) -> (b: bool)
        requires
            self.wf(),
        ensures
            b == self@.contains_key(k@),
    {
        self.position(k).is_some()
    }

    /// The value of a key, if the map has it.
    pub fn get(&self, k: &K) -> (r: Option<&V>)
        requires
            self.wf(),
        ensures
            r is Some <==> self@.contains_key(k@),
            r matches Some(v) ==> *v == self@[k@],
    {
        match self.position(k) {
            Some(i) => Some(&self.values[i]),
            None => None,
        }
    }

    /// The key at a position of the insertion order.
    pub fn key_at(&self, i: usize) -> (k: &K)
        requires
            self.wf(),
            i < self.keys().len(),
        ensures
            k@ == self.keys()[i as int],
    {
        &self.keys[i]
    }

    /// The value at a position of the insertion order.
    pub fn value_at(&self, i: usize) -> (v: &V)
        requires
            self.wf(),
            i < self.keys().len(),
        ensures
            *v == self.values()[i as int],
    {
        &self.values[i]
    }

    /// Replaces the value at a position of the insertion order.
    pub fn set_value_at(&mut self, i: usize, v: V)
        requires
            old(self).wf(),
            i < old(self).keys().len(),
        ensures
            final(self).wf(),
            final(self).keys() == old(self).keys(),
            final(self).values() == old(self).values().update(i as int, v),
            final(self)@ == old(self)@.insert(old(self).keys()[i as int], v),
    {
        proof {
            self.lemma_entries();
        }
        let ghost before = *self;
        self.values.set(i, v);
        proof {
            assert(self.keys@ == before.keys@);
            assert(self.values@ == before.values@.update(i as int, v));
            assert(self.wf());
            self.lemma_entries();
            let ks = self.keys();
            assert(self@ =~= before@.insert(ks[i as int], v)) by {
                assert forall|k: K::V| self@.contains_key(k) implies #[trigger] self@[k]
                    == before@.insert(ks[i as int], v)[k] by {
                    ks.index_of_first_ensures(k);
                    let j = ks.index_of(k);
                    assert(ks[j] == k);
                    if j == i {
                    } else {
                        assert(k != ks[i as int]);
                    }
                }
            }
        }
    }

    /// Binds a key to a value, replacing the value that it had. Returns
    /// whether the key was new.
    pub fn insert(&mut self, k: K, v: V) -> (fresh: bool)
        requires
            old(self).wf(),
        ensures
            final(self).wf(),
            fresh == !old(self)@.contains_key(k@),
            final(self)@ == old(self)@.insert(k@, v),
            fresh ==> final(self).keys() == old(self).keys().push(k@) && final(self).values()
                == old(self).values().push(v),
            !fresh ==> final(self).keys() == old(self).keys() && final(self).values() == old(
                self,
            ).values().update(old(self).keys().index_of(k@), v),
    {
        match self.position(&k) {
            Some(i) => {
                proof {
                    self.keys().index_of_first_ensures(k@);
                }
                self.set_value_at(i, v);
                false
            },
            None => {
                let ghost before = *self;
                proof {
                    before.lemma_entries();
                }
                self.keys.push(k);
                self.values.push(v);
                proof {
                    let ks = before.keys();
                    assert(views(self.keys@) =~= ks.push(k@));
                    assert(self.wf());
                    self.lemma_entries();
                    assert(self@ =~= before@.insert(k@, v)) by {
                        assert forall|q: K::V| self@.contains_key(q) <==> (before@.contains_key(q)
                            || q == k@) by {
                            if before@.contains_key(q) {
                                let j = choose|j: int| 0 <= j < ks.len() && ks[j] == q;
                                assert(ks.push(k@)[j] == q);
                            }
                            if q == k@ {
                                assert(ks.push(k@)[ks.len() as int] == q);
                            }
                        }
                        assert forall|q: K::V| self@.contains_key(q) implies #[trigger] self@[q]
                            == before@.insert(k@, v)[q] by {
                            let s = self.keys();
                            s.index_of_first_ensures(q);
                            let j = s.index_of(q);
                            assert(s[j] == q);
                            if j < ks.len() {
                                assert(ks[j] == q);
                            }
                        }
                    }
                }
                true
            },
        }
    }

    /// Takes the entry that came last, if there is one.
    pub fn pop(&mut self) -> (r: Option<(K, V)>)
        requires
            old(self).wf(),
        ensures
            final(self).wf(),
            match r {
                Some((k, v)) => old(self)@.contains_key(k@) && old(self)@[k@] == v && final(self)@
                    == old(self)@.remove(k@) && old(self).keys() == final(self).keys().push(k@),
                None => {
                    &&& old(self).keys().len() == 0
                    &&& final(self)@ == old(self)@
                    &&& final(self).keys() == old(self).keys()
                },
            },
    {
        let ghost before = *self;
        proof {
            before.lemma_entries();
        }
        match self.keys.pop() {
            None => None,
            Some(k) => {
                let v = self.values.pop().unwrap();
                proof {
                    let s = before.keys();
                    let t = views(self.keys@);
                    assert(t =~= s.drop_last());
                    assert(s =~= t.push(k@));
                    assert(s[s.len() - 1] == k@);
                    assert forall|a: int, b: int| 0 <= a < b < t.len() implies t[a] != t[b] by {
                        assert(t[a] == s[a] && t[b] == s[b]);
                    }
                    assert(self.wf());
                    self.lemma_entries();
                    assert(!t.contains(k@)) by {
                        if t.contains(k@) {
                            let j = choose|j: int| 0 <= j < t.len() && t[j] == k@;
                            assert(s[j] == s[s.len() - 1]);
                        }
                    }
                    assert(self@ =~= before@.remove(k@)) by {
                        assert forall|q: K::V| self@.contains_key(q) <==> (before@.contains_key(q)
                            && q != k@) by {
                            if t.contains(q) {
                                let j = choose|j: int| 0 <= j < t.len() && t[j] == q;
                                assert(s[j] == q);
                            }
                            if s.contains(q) && q != k@ {
                                let j = choose|j: int| 0 <= j < s.len() && s[j] == q;
                                assert(t[j] == q);
                            }
                        }
                        assert forall|q: K::V| self@.contains_key(q) implies #[trigger] self@[q]
                            == before@.remove(k@)[q] by {
                            t.index_of_first_ensures(q);
                            let j = t.index_of(q);
                            assert(t[j] == q);
                            assert(s[j] == q);
                        }
                    }
                }
                Some((k, v))
            },
        }
    }

    /// Removes a key and hands back its value, if the map had it.
    pub fn remove(&mut self, k: &K) -> (r: Option<V>)
        requires
            old(self).wf(),
        ensures
            final(self).wf(),
            r is Some <==> old(self)@.contains_key(k@),
            r matches Some(v) ==> v == old(self)@[k@],
            final(self)@ == old(self)@.remove(k@),
    {
        match self.position(k) {
            None => {
                assert(self@ =~= self@.remove(k@));
                None
            },
            Some(i) => {
                let ghost before = *self;
                proof {
                    before.lemma_entries();
                }
                self.keys.remove(i);
                let v = self.values.remove(i);
                proof {
                    let s = before.keys();
                    let t = s.remove(i as int);
                    assert(views(self.keys@) =~= t);
                    assert forall|a: int, b: int| 0 <= a < b < t.len() implies t[a] != t[b] by {
                        let a2 = if a < i { a } else { a + 1 };
                        let b2 = if b < i { b } else { b + 1 };
                        assert(t[a] == s[a2] && t[b] == s[b2]);
                    }
                    assert(self.wf());
                    self.lemma_entries();
                    assert(self@ =~= before@.remove(k@)) by {
                        assert forall|q: K::V| self@.contains_key(q) <==> (before@.contains_key(q)
                            && q != k@) by {
                            if t.contains(q) {
                                let j = choose|j: int| 0 <= j < t.len() && t[j] == q;
                                let j2 = if j < i { j } else { j + 1 };
                                assert(s[j2] == q);
                            }
                            if s.contains(q) && q != k@ {
                                let j = choose|j: int| 0 <= j < s.len() && s[j] == q;
                                let j2 = if j < i { j } else { j - 1 };
                                assert(t[j2] == q);
                            }
                        }
                        assert forall|q: K::V| self@.contains_key(q) implies #[trigger] self@[q]
                            == before@.remove(k@)[q] by {
                            t.index_of_first_ensures(q);
                            let j = t.index_of(q);
                            let j2 = if j < i { j } else { j + 1 };
                            assert(t[j] == q);
                            assert(s[j2] == q);
                        }
                    }
                }
                Some(v)
            },
        }
    }
}

/// Filtering a sequence with one more item at its end.
pub proof fn filter_push<A>(s: Seq<A>, x: A, keep: spec_fn(A) -> bool)
    ensures
        s.push(x).filter(keep) == if keep(x) {
            s.filter(keep).push(x)
        } else {
            s.filter(keep)
        },
{
    reveal(Seq::filter);
    assert(s.push(x).drop_last() =~= s);
}

/// What a filtered sequence holds.
pub proof fn filter_members<A>(s: Seq<A>, keep: spec_fn(A) -> bool, v: A)
    ensures
        s.filter(keep).contains(v) <==> (s.contains(v) && keep(v)),
    decreases s.len(),
{
    reveal(Seq::filter);
    if s.len() > 0 {
        let init = s.drop_last();
        let last = s.last();
        filter_members(init, keep, v);
        filter_push(init, last, keep);
        assert(init.push(last) =~= s);
        if s.contains(v) {
            let k = choose|k: int| 0 <= k < s.len() && s[k] == v;
            if k < s.len() - 1 {
                assert(init[k] == v);
            }
        }
        if init.contains(v) {
            let k = choose|k: int| 0 <= k < init.len() && init[k] == v;
            assert(s[k] == v);
        }
        if keep(last) {
            let f = init.filter(keep);
            if f.push(last).contains(v) {
                let k = choose|k: int| 0 <= k < f.push(last).len() && f.push(last)[k] == v;
                if k < f.len() {
                    assert(f[k] == v);
                } else {
                    assert(s[s.len() - 1] == v);
                }
            }
            if f.contains(v) {
                let k = choose|k: int| 0 <= k < f.len() && f[k] == v;
                assert(f.push(last)[k] == v);
            }
            if v == last {
                assert(f.push(last)[f.len() as int] == v);
                assert(s[s.len() - 1] == v);
            }
        } else {
            if v == last && s.contains(v) {
            }
        }
    }
}

/// Filtering keeps a sequence free of duplicates.
pub proof fn filter_keeps_distinct<A>(s: Seq<A>, keep: spec_fn(A) -> bool)
    requires
        s.no_duplicates(),
    ensures
        s.filter(keep).no_duplicates(),
    decreases s.len(),
{
    reveal(Seq::filter);
    if s.len() > 0 {
        let init = s.drop_last();
        let last = s.last();
        assert(init.no_duplicates());
        filter_keeps_distinct(init, keep);
        filter_push(init, last, keep);
        assert(init.push(last) =~= s);
        if keep(last) {
            let f = init.filter(keep);
            filter_members(init, keep, last);
            if init.contains(last) {
                let k = choose|k: int| 0 <= k < init.len() && init[k] == last;
                assert(s[k] == s[s.len() - 1]);
            }
            assert(!f.contains(last));
            assert forall|a: int, b: int| 0 <= a < b < f.push(last).len() implies f.push(last)[a]
                != f.push(last)[b] by {
                if b == f.len() {
                    assert(f[a] == f.push(last)[a]);
                    assert(f.contains(f[a]));
                }
            }
        }
    }
}

} // verus!
