//! Maps with two indexes, and sets to be compared.
use crate::util::table::{Key, VecMap, VecSet};
use vstd::prelude::*;

verus! {

/// An error of a lookup.
#[derive(Debug, PartialEq, Eq)]
pub enum Error {
    /// An id that a map does not hold.
    UnknownId { id: String },
}

impl View for Error {
    type V = Seq<char>;

    /// The id that was not found.
    open spec fn view(&self) -> Seq<char> {
        match self {
            Error::UnknownId { id } => id@,
        }
    }
}

/// The set that a map binds to a key, or the empty set.
pub open spec fn bound<A, B>(m: Map<A, Set<B>>, k: A) -> Set<B> {
    if m.contains_key(k) {
        m[k]
    } else {
        Set::<B>::empty()
    }
}

/// The sets of a map of sets, by key.
pub open spec fn set_views<A: Key, B: Key>(m: Map<A::V, VecSet<B>>) -> Map<A::V, Set<B::V>> {
    m.map_values(|s: VecSet<B>| s@)
}

/// Whether every set of a map of sets is well formed.
pub open spec fn sets_wf<A: Key, B: Key>(m: VecMap<A, VecSet<B>>) -> bool {
    forall|k: A::V| m@.contains_key(k) ==> (#[trigger] m@[k]).wf()
}

/// Maps many items on the left to many items on the right, and back.
#[derive(Debug)]
pub struct ManyToMany<L: Key, R: Key> {
    ltor: VecMap<L, VecSet<R>>,
    rtol: VecMap<R, VecSet<L>>,
}

impl<L: Key, R: Key> ManyToMany<L, R> {
    /// Both maps and all their sets are well formed.
    pub closed spec fn wf(&self) -> bool {
        &&& self.ltor.wf()
        &&& self.rtol.wf()
        &&& sets_wf(self.ltor)
        &&& sets_wf(self.rtol)
    }

    /// The items on the right of each item on the left.
    pub closed spec fn lefts(&self) -> Map<L::V, Set<R::V>> {
        set_views::<L, R>(self.ltor@)
    }

    /// The items on the left of each item on the right.
    pub closed spec fn rights(&self) -> Map<R::V, Set<L::V>> {
        set_views::<R, L>(self.rtol@)
    }

    /// The items on the left, in the order in which they first came.
    pub closed spec fn left_order(&self) -> Seq<L::V> {
        self.ltor.keys()
    }

    /// The items on the right of an item on the left, in the order in which
    /// they first came.
    pub closed spec fn rs_order(&self, l: L::V) -> Seq<R::V> {
        self.ltor@[l].order()
    }

    /// The items on the left of an item on the right, in the order in which
    /// they first came.
    pub closed spec fn ls_order(&self, r: R::V) -> Seq<L::V> {
        self.rtol@[r].order()
    }

    /// The items on the right, in the order in which they first came.
    pub closed spec fn right_order(&self) -> Seq<R::V> {
        self.rtol.keys()
    }

    /// Whether the two maps hold the same pairs.
    pub open spec fn consistent(&self) -> bool {
        forall|l: L::V, r: R::V|
            bound(self.lefts(), l).contains(r) <==> bound(self.rights(), r).contains(l)
    }

    /// The orders list the keys of the maps.
    pub proof fn lemma_orders(&self)
        requires
            self.wf(),
        ensures
            self.left_order().no_duplicates(),
            self.right_order().no_duplicates(),
            self.left_order().to_set() == self.lefts().dom(),
            self.right_order().to_set() == self.rights().dom(),
            forall|l: L::V| self.lefts().contains_key(l) <==> self.left_order().contains(l),
            forall|r: R::V| self.rights().contains_key(r) <==> self.right_order().contains(r),
    {
        self.ltor.lemma_entries();
        self.rtol.lemma_entries();
        assert(self.lefts().dom() =~= self.ltor@.dom());
        assert(self.rights().dom() =~= self.rtol@.dom());
    }

    /// An empty map.
    pub fn new() -> (m: Self)
        ensures
            m.wf(),
            m.consistent(),
            m.lefts() == Map::<L::V, Set<R::V>>::empty(),
            m.rights() == Map::<R::V, Set<L::V>>::empty(),
    {
        let m = ManyToMany { ltor: VecMap::new(), rtol: VecMap::new() };
        assert(m.lefts() =~= Map::<L::V, Set<R::V>>::empty());
        assert(m.rights() =~= Map::<R::V, Set<L::V>>::empty());
        m
    }

    /// The map made of the two given indexes.
    pub fn from_maps(ltor: VecMap<L, VecSet<R>>, rtol: VecMap<R, VecSet<L>>) -> (m: Self)
        requires
            ltor.wf(),
            rtol.wf(),
            sets_wf(ltor),
            sets_wf(rtol),
        ensures
            m.wf(),
            m.lefts() == set_views::<L, R>(ltor@),
            m.rights() == set_views::<R, L>(rtol@),
    {
        ManyToMany { ltor, rtol }
    }

    /// An empty map with room for `cap` items on each side.
    pub fn with_capacity(cap: usize) -> (m: Self)
        ensures
            m.wf(),
            m.consistent(),
            m.lefts() == Map::<L::V, Set<R::V>>::empty(),
            m.rights() == Map::<R::V, Set<L::V>>::empty(),
    {
        let m = ManyToMany { ltor: VecMap::with_capacity(cap), rtol: VecMap::with_capacity(cap) };
        assert(m.lefts() =~= Map::<L::V, Set<R::V>>::empty());
        assert(m.rights() =~= Map::<R::V, Set<L::V>>::empty());
        m
    }

    /// Maps `l` to `r`. Returns whether `l` was new on the left, and whether
    /// `r` was new on the right.
    pub fn map(&mut self, l: L, r: R) -> (once: (bool, bool))
        requires
            old(self).wf(),
        ensures
            final(self).wf(),
            once.0 == !old(self).lefts().contains_key(l@),
            once.1 == !old(self).rights().contains_key(r@),
            final(self).lefts() == old(self).lefts().insert(
                l@,
                bound(old(self).lefts(), l@).insert(r@),
            ),
            final(self).rights() == old(self).rights().insert(
                r@,
                bound(old(self).rights(), r@).insert(l@),
            ),
            old(self).consistent() ==> final(self).consistent(),
    {
        let ghost before = *self;
        let lonce = link(&mut self.ltor, l.replica(), r.replica());
        let ronce = link(&mut self.rtol, r, l);
        proof {
            if before.consistent() {
                assert forall|a: L::V, b: R::V|
                    bound(self.lefts(), a).contains(b) <==> bound(self.rights(), b).contains(
                        a,
                    ) by {
                    assert(bound(before.lefts(), a).contains(b) <==> bound(
                        before.rights(),
                        b,
                    ).contains(a));
                }
            }
        }
        (lonce, ronce)
    }

    /// The number of items on the left.
    pub fn ls_len(&self) -> (n: usize)
        requires
            self.wf(),
        ensures
            n == self.lefts().dom().len(),
            n == self.left_order().len(),
    {
        proof {
            assert(self.lefts().dom() =~= self.ltor@.dom());
        }
        self.ltor.len()
    }

    /// The number of items on the right.
    pub fn rs_len(&self) -> (n: usize)
        requires
            self.wf(),
        ensures
            n == self.rights().dom().len(),
            n == self.right_order().len(),
    {
        proof {
            assert(self.rights().dom() =~= self.rtol@.dom());
        }
        self.rtol.len()
    }

    /// The item on the left at a position of the order.
    pub fn left_at(&self, i: usize) -> (l: &L)
        requires
            self.wf(),
            i < self.left_order().len(),
        ensures
            l@ == self.left_order()[i as int],
    {
        self.ltor.key_at(i)
    }

    /// The item on the right at a position of the order.
    pub fn right_at(&self, i: usize) -> (r: &R)
        requires
            self.wf(),
            i < self.right_order().len(),
        ensures
            r@ == self.right_order()[i as int],
    {
        self.rtol.key_at(i)
    }

    /// The items on the right of an item on the left.
    pub fn get_rs(&self, l: &L) -> (r: Result<&VecSet<R>, Error>)
        requires
            self.wf(),
        ensures
            match r {
                Ok(set) => self.lefts().contains_key(l@) && set@ == self.lefts()[l@] && set.wf()
                    && set.order() == self.rs_order(l@),
                Err(e) => !self.lefts().contains_key(l@) && e@ == Seq::<char>::empty(),
            },
    {
        match self.ltor.get(l) {
            Some(set) => Ok(set),
            None => Err(Error::UnknownId { id: String::new() }),
        }
    }

    /// The items on the left of an item on the right.
    pub fn get_ls(&self, r: &R) -> (l: Result<&VecSet<L>, Error>)
        requires
            self.wf(),
        ensures
            match l {
                Ok(set) => self.rights().contains_key(r@) && set@ == self.rights()[r@] && set.wf()
                    && set.order() == self.ls_order(r@),
                Err(e) => !self.rights().contains_key(r@) && e@ == Seq::<char>::empty(),
            },
    {
        match self.rtol.get(r) {
            Some(set) => Ok(set),
            None => Err(Error::UnknownId { id: String::new() }),
        }
    }

    /// Gives back the room that the maps do not use.
    pub fn shrink_to_fit(&mut self)
        ensures
            final(self).wf() == old(self).wf(),
            final(self).lefts() == old(self).lefts(),
            final(self).rights() == old(self).rights(),
            final(self).left_order() == old(self).left_order(),
            final(self).right_order() == old(self).right_order(),
    {
        self.ltor.shrink_to_fit();
        self.rtol.shrink_to_fit();
    }
}

/// Adds `b` to the set of `a`, which is made where `a` has none. Returns
/// whether `a` was new.
fn link<A: Key, B: Key>(m: &mut VecMap<A, VecSet<B>>, a: A, b: B) -> (fresh: bool)
    requires
        old(m).wf(),
        sets_wf(*old(m)),
    ensures
        final(m).wf(),
        sets_wf(*final(m)),
        fresh == !old(m)@.contains_key(a@),
        set_views::<A, B>(final(m)@) == set_views::<A, B>(old(m)@).insert(
            a@,
            bound(set_views::<A, B>(old(m)@), a@).insert(b@),
        ),
        !fresh ==> final(m).keys() == old(m).keys(),
        fresh ==> final(m).keys() == old(m).keys().push(a@),
{
    let ghost before = *m;
    match m.position(&a) {
        Some(i) => {
            proof {
                before.lemma_entries();
            }
            let mut set = m.swap_value_at(i, VecSet::new());
            set.insert(b);
            m.swap_value_at(i, set);
            proof {
                assert(m@ =~= before@.insert(a@, set));
                assert(set_views::<A, B>(m@) =~= set_views::<A, B>(before@).insert(
                    a@,
                    bound(set_views::<A, B>(before@), a@).insert(b@),
                ));
                assert forall|k: A::V| m@.contains_key(k) implies (#[trigger] m@[k]).wf() by {
                    if k != a@ {
                        assert(before@.contains_key(k));
                    }
                }
                assert(m.keys() =~= before.keys());
            }
            false
        },
        None => {
            let mut set = VecSet::with_capacity(2);
            set.insert(b);
            m.insert(a, set);
            proof {
                assert(set_views::<A, B>(m@) =~= set_views::<A, B>(before@).insert(
                    a@,
                    bound(set_views::<A, B>(before@), a@).insert(b@),
                ));
                assert forall|k: A::V| m@.contains_key(k) implies (#[trigger] m@[k]).wf() by {
                    if k != a@ {
                        assert(before@.contains_key(k));
                    }
                }
            }
            true
        },
    }
}

/// Maps items on the left to items on the right, and back.
#[derive(Debug)]
pub struct OneToOne<L: Key, R: Key> {
    itos: VecMap<L, R>,
    stoi: VecMap<R, L>,
}

impl<L: Key, R: Key> OneToOne<L, R> {
    /// Both maps are well formed.
    pub closed spec fn wf(&self) -> bool {
        self.itos.wf() && self.stoi.wf()
    }

    /// The item on the right of each item on the left.
    pub closed spec fn forth(&self) -> Map<L::V, R::V> {
        self.itos@.map_values(|r: R| r@)
    }

    /// The item on the left of each item on the right.
    pub closed spec fn back(&self) -> Map<R::V, L::V> {
        self.stoi@.map_values(|l: L| l@)
    }

    /// The items on the left, in the order in which they first came.
    pub closed spec fn order(&self) -> Seq<L::V> {
        self.itos.keys()
    }

    /// An empty map.
    pub fn new() -> (m: Self)
        ensures
            m.wf(),
            m.forth() == Map::<L::V, R::V>::empty(),
            m.back() == Map::<R::V, L::V>::empty(),
    {
        let m = OneToOne { itos: VecMap::new(), stoi: VecMap::new() };
        assert(m.forth() =~= Map::<L::V, R::V>::empty());
        assert(m.back() =~= Map::<R::V, L::V>::empty());
        m
    }

    /// An empty map with room for `cap` pairs.
    pub fn with_capacity(cap: usize) -> (m: Self)
        ensures
            m.wf(),
            m.forth() == Map::<L::V, R::V>::empty(),
            m.back() == Map::<R::V, L::V>::empty(),
    {
        let m = OneToOne { itos: VecMap::with_capacity(cap), stoi: VecMap::with_capacity(cap) };
        assert(m.forth() =~= Map::<L::V, R::V>::empty());
        assert(m.back() =~= Map::<R::V, L::V>::empty());
        m
    }

    /// The pairs, in the order in which the items on the left first came.
    pub fn iter(&self) -> (pairs: Vec<(L, R)>)
        requires
            self.wf(),
        ensures
            pairs@.len() == self.order().len(),
            forall|i: int|
                0 <= i < pairs@.len() ==> (#[trigger] pairs@[i]).0@ == self.order()[i]
                    && self.forth().contains_key(pairs@[i].0@) && pairs@[i].1@
                    == self.forth()[pairs@[i].0@],
    {
        let mut pairs: Vec<(L, R)> = Vec::new();
        let n = self.itos.len();
        let mut i: usize = 0;
        proof {
            self.itos.lemma_entries();
        }
        while i < n
            invariant
                i <= n,
                n == self.order().len(),
                self.wf(),
                pairs@.len() == i,
                forall|j: int|
                    0 <= j < i ==> (#[trigger] pairs@[j]).0@ == self.order()[j]
                        && self.forth().contains_key(pairs@[j].0@) && pairs@[j].1@
                        == self.forth()[pairs@[j].0@],
            decreases n - i,
        {
            let l = self.itos.key_at(i).replica();
            let r = self.itos.value_at(i).replica();
            proof {
                self.itos.lemma_entries();
            }
            pairs.push((l, r));
            i += 1;
        }
        pairs
    }

    /// The number of items on the left.
    pub fn len(&self) -> (n: usize)
        requires
            self.wf(),
        ensures
            n == self.forth().dom().len(),
            n == self.order().len(),
    {
        proof {
            assert(self.forth().dom() =~= self.itos@.dom());
        }
        self.itos.len()
    }

    /// The item on the right of an item on the left.
    pub fn by_uid(&self, id: &L) -> (r: Result<R, Error>)
        requires
            self.wf(),
        ensures
            match r {
                Ok(v) => self.forth().contains_key(id@) && v@ == self.forth()[id@],
                Err(e) => !self.forth().contains_key(id@) && e@ == Seq::<char>::empty(),
            },
    {
        match self.itos.get(id) {
            Some(v) => Ok(v.replica()),
            None => Err(Error::UnknownId { id: String::new() }),
        }
    }

    /// The item on the left of an item on the right.
    pub fn by_alt(&self, id: &R) -> (r: Result<L, Error>)
        requires
            self.wf(),
        ensures
            match r {
                Ok(v) => self.back().contains_key(id@) && v@ == self.back()[id@],
                Err(e) => !self.back().contains_key(id@) && e@ == Seq::<char>::empty(),
            },
    {
        match self.stoi.get(id) {
            Some(v) => Ok(v.replica()),
            None => Err(Error::UnknownId { id: String::new() }),
        }
    }

    /// Maps `l` to `r` and `r` to `l`, in place of what each was mapped to.
    pub fn map(&mut self, l: L, r: R)
        requires
            old(self).wf(),
        ensures
            final(self).wf(),
            final(self).forth() == old(self).forth().insert(l@, r@),
            final(self).back() == old(self).back().insert(r@, l@),
    {
        let ghost before = *self;
        let l2 = l.replica();
        let r2 = r.replica();
        self.itos.insert(l, r);
        self.stoi.insert(r2, l2);
        proof {
            assert(self.forth() =~= before.forth().insert(l@, r@));
            assert(self.back() =~= before.back().insert(r@, l@));
        }
    }

    /// Gives back the room that the maps do not use.
    pub fn shrink_to_fit(&mut self)
        ensures
            final(self).wf() == old(self).wf(),
            final(self).forth() == old(self).forth(),
            final(self).back() == old(self).back(),
            final(self).order() == old(self).order(),
    {
        self.stoi.shrink_to_fit();
        self.itos.shrink_to_fit();
    }
}

/// A value that has an id of another type.
pub trait HasId<T: Key> {
    /// The view of the id.
    spec fn id_spec(&self) -> T::V;

    /// The id of the value.
    fn as_id(&self) -> (id: T)
        ensures
            id@ == self.id_spec(),
    ;
}

impl HasId<i64> for i64 {
    open spec fn id_spec(&self) -> i64 {
        *self
    }

    fn as_id(&self) -> (id: i64) {
        *self
    }
}

/// Maps ids on the left to whole values on the right, and the ids of those
/// values back to whole values on the left.
#[derive(Debug)]
pub struct OneToOneFat<L: HasId<LID>, LID: Key, R: HasId<RID>, RID: Key> {
    itos: VecMap<LID, R>,
    stoi: VecMap<RID, L>,
}

impl<L: HasId<LID>, LID: Key, R: HasId<RID>, RID: Key> OneToOneFat<L, LID, R, RID> {
    /// Both maps are well formed.
    pub closed spec fn wf(&self) -> bool {
        self.itos.wf() && self.stoi.wf()
    }

    /// The value on the right of each id on the left.
    pub closed spec fn forth(&self) -> Map<LID::V, R> {
        self.itos@
    }

    /// The value on the left of each id on the right.
    pub closed spec fn back(&self) -> Map<RID::V, L> {
        self.stoi@
    }

    /// The ids on the left, in the order in which they first came.
    pub closed spec fn order(&self) -> Seq<LID::V> {
        self.itos.keys()
    }

    /// The order lists the ids on the left, each once.
    pub proof fn lemma_order(&self)
        requires
            self.wf(),
        ensures
            self.order().no_duplicates(),
            self.order().to_set() == self.forth().dom(),
            forall|k: LID::V| self.forth().contains_key(k) <==> self.order().contains(k),
    {
        self.itos.lemma_entries();
    }

    /// An empty map.
    pub fn new() -> (m: Self)
        ensures
            m.wf(),
            m.forth() == Map::<LID::V, R>::empty(),
            m.back() == Map::<RID::V, L>::empty(),
            m.order() == Seq::<LID::V>::empty(),
    {
        OneToOneFat { itos: VecMap::new(), stoi: VecMap::new() }
    }

    /// An empty map with room for `cap` pairs.
    pub fn with_capacity(cap: usize) -> (m: Self)
        ensures
            m.wf(),
            m.forth() == Map::<LID::V, R>::empty(),
            m.back() == Map::<RID::V, L>::empty(),
            m.order() == Seq::<LID::V>::empty(),
    {
        OneToOneFat { itos: VecMap::with_capacity(cap), stoi: VecMap::with_capacity(cap) }
    }

    /// The pairs of ids, in the order in which the ids on the left first came.
    pub fn iter(&self) -> (pairs: Vec<(LID, RID)>)
        requires
            self.wf(),
        ensures
            pairs@.len() == self.order().len(),
            forall|i: int|
                0 <= i < pairs@.len() ==> (#[trigger] pairs@[i]).0@ == self.order()[i]
                    && self.forth().contains_key(pairs@[i].0@) && pairs@[i].1@
                    == self.forth()[pairs@[i].0@].id_spec(),
    {
        let mut pairs: Vec<(LID, RID)> = Vec::new();
        let n = self.itos.len();
        let mut i: usize = 0;
        while i < n
            invariant
                i <= n,
                n == self.order().len(),
                self.wf(),
                pairs@.len() == i,
                forall|j: int|
                    0 <= j < i ==> (#[trigger] pairs@[j]).0@ == self.order()[j]
                        && self.forth().contains_key(pairs@[j].0@) && pairs@[j].1@
                        == self.forth()[pairs@[j].0@].id_spec(),
            decreases n - i,
        {
            let l = self.itos.key_at(i).replica();
            let r = self.itos.value_at(i).as_id();
            proof {
                self.itos.lemma_entries();
            }
            pairs.push((l, r));
            i += 1;
        }
        pairs
    }

    /// The number of ids on the left.
    pub fn len(&self) -> (n: usize)
        requires
            self.wf(),
        ensures
            n == self.forth().dom().len(),
            n == self.order().len(),
    {
        self.itos.len()
    }

    /// The id on the left at a position of the order.
    pub fn uid_at(&self, i: usize) -> (id: &LID)
        requires
            self.wf(),
            i < self.order().len(),
        ensures
            id@ == self.order()[i as int],
    {
        self.itos.key_at(i)
    }

    /// The value on the right of an id on the left.
    pub fn by_uid(&self, id: &LID) -> (r: Result<&R, Error>)
        requires
            self.wf(),
        ensures
            match r {
                Ok(v) => self.forth().contains_key(id@) && *v == self.forth()[id@],
                Err(e) => !self.forth().contains_key(id@) && e@ == Seq::<char>::empty(),
            },
    {
        match self.itos.get(id) {
            Some(v) => Ok(v),
            None => Err(Error::UnknownId { id: String::new() }),
        }
    }

    /// The value on the left of an id on the right.
    pub fn by_alt(&self, id: &RID) -> (r: Result<&L, Error>)
        requires
            self.wf(),
        ensures
            match r {
                Ok(v) => self.back().contains_key(id@) && *v == self.back()[id@],
                Err(e) => !self.back().contains_key(id@) && e@ == Seq::<char>::empty(),
            },
    {
        match self.stoi.get(id) {
            Some(v) => Ok(v),
            None => Err(Error::UnknownId { id: String::new() }),
        }
    }

    /// Maps the id of `l` to `r` and the id of `r` to `l`, in place of what
    /// each id was mapped to.
    pub fn map(&mut self, l: L, r: R)
        requires
            old(self).wf(),
        ensures
            final(self).wf(),
            final(self).forth() == old(self).forth().insert(l.id_spec(), r),
            final(self).back() == old(self).back().insert(r.id_spec(), l),
            old(self).forth().contains_key(l.id_spec()) ==> final(self).order() == old(
                self,
            ).order(),
            !old(self).forth().contains_key(l.id_spec()) ==> final(self).order() == old(
                self,
            ).order().push(l.id_spec()),
    {
        let lid = l.as_id();
        let rid = r.as_id();
        self.itos.insert(lid, r);
        self.stoi.insert(rid, l);
    }

    /// Gives back the room that the maps do not use.
    pub fn shrink_to_fit(&mut self)
        ensures
            final(self).wf() == old(self).wf(),
            final(self).forth() == old(self).forth(),
            final(self).back() == old(self).back(),
            final(self).order() == old(self).order(),
    {
        self.stoi.shrink_to_fit();
        self.itos.shrink_to_fit();
    }
}

/// Two sets of items, to be compared.
#[derive(Debug)]
pub struct Diff<D: Key> {
    ls: VecSet<D>,
    rs: VecSet<D>,
}

impl<D: Key> Diff<D> {
    /// Both sets are well formed.
    pub closed spec fn wf(&self) -> bool {
        self.ls.wf() && self.rs.wf()
    }

    /// The set on the left.
    pub closed spec fn left_set(&self) -> VecSet<D> {
        self.ls
    }

    /// The set on the right.
    pub closed spec fn right_set(&self) -> VecSet<D> {
        self.rs
    }

    /// The items on the left.
    pub open spec fn lefts(&self) -> Set<D::V> {
        self.left_set()@
    }

    /// The items on the right.
    pub open spec fn rights(&self) -> Set<D::V> {
        self.right_set()@
    }

    /// How the whole relates to its two sets.
    pub proof fn lemma_wf(&self)
        ensures
            self.wf() == (self.left_set().wf() && self.right_set().wf()),
    {
    }

    /// Two empty sets.
    pub fn new() -> (d: Self)
        ensures
            d.wf(),
            d.lefts() == Set::<D::V>::empty(),
            d.rights() == Set::<D::V>::empty(),
    {
        Diff { ls: VecSet::new(), rs: VecSet::new() }
    }

    /// Gives back the room that the sets do not use.
    pub fn shrink_to_fit(&mut self)
        ensures
            final(self).wf() == old(self).wf(),
            final(self).lefts() == old(self).lefts(),
            final(self).rights() == old(self).rights(),
    {
        self.ls.shrink_to_fit();
        self.rs.shrink_to_fit();
    }

    /// Two empty sets with room for `cap` items each.
    pub fn with_capacity(cap: usize) -> (d: Self)
        ensures
            d.wf(),
            d.lefts() == Set::<D::V>::empty(),
            d.rights() == Set::<D::V>::empty(),
    {
        Diff { ls: VecSet::with_capacity(cap), rs: VecSet::with_capacity(cap) }
    }

    /// The set on the left, to be filled.
    pub fn ls(&mut self) -> (set: &mut VecSet<D>)
        ensures
            *set == old(self).left_set(),
            final(self).left_set() == *final(set),
            final(self).right_set() == old(self).right_set(),
    {
        &mut self.ls
    }

    /// The set on the right, to be filled.
    pub fn rs(&mut self) -> (set: &mut VecSet<D>)
        ensures
            *set == old(self).right_set(),
            final(self).right_set() == *final(set),
            final(self).left_set() == old(self).left_set(),
    {
        &mut self.rs
    }

    /// Adds an item on the left.
    pub fn add_left(&mut self, item: D)
        requires
            old(self).wf(),
        ensures
            final(self).wf(),
            final(self).lefts() == old(self).lefts().insert(item@),
            final(self).rights() == old(self).rights(),
    {
        self.ls.insert(item);
    }

    /// Adds an item on the right.
    pub fn add_right(&mut self, item: D)
        requires
            old(self).wf(),
        ensures
            final(self).wf(),
            final(self).lefts() == old(self).lefts(),
            final(self).rights() == old(self).rights().insert(item@),
    {
        self.rs.insert(item);
    }

    /// The two differences: the items that are only on the left, and those
    /// that are only on the right.
    pub fn diff(&self) -> (d: (VecSet<D>, VecSet<D>))
        requires
            self.wf(),
        ensures
            d.0.wf(),
            d.1.wf(),
            d.0@ == self.lefts().difference(self.rights()),
            d.1@ == self.rights().difference(self.lefts()),
    {
        (self.ls.difference(&self.rs), self.rs.difference(&self.ls))
    }
}

/// Deleting what is only in `before` and inserting what is only in `after`
/// turns `before` into `after`, in either order.
pub proof fn lemma_diff_reaches<A>(before: Set<A>, after: Set<A>)
    ensures
        before.union(after.difference(before)).difference(before.difference(after)) == after,
        before.difference(before.difference(after)).union(after.difference(before)) == after,
        after.difference(before).disjoint(before.difference(after)),
{
    let inserts = after.difference(before);
    let deletes = before.difference(after);
    assert(before.union(inserts).difference(deletes) =~= after);
    assert(before.difference(deletes).union(inserts) =~= after);
}

/// Where `before` and `after` are the same, nothing is inserted or deleted.
pub proof fn lemma_diff_of_equals<A>(both: Set<A>)
    ensures
        both.difference(both) == Set::<A>::empty(),
{
    assert(both.difference(both) =~= Set::<A>::empty());
}

} // verus!
