//! Unions and intersections of lists of sets.
use crate::util::table::{Key, VecSet};
use vstd::prelude::*;

verus! {

/// The views of a list of sets.
pub open spec fn set_list<T: Key>(sets: Seq<VecSet<T>>) -> Seq<Set<T::V>> {
    sets.map_values(|s: VecSet<T>| s@)
}

/// What is in any of the sets.
pub open spec fn union_all<A>(sets: Seq<Set<A>>) -> Set<A>
    decreases sets.len(),
{
    if sets.len() == 0 {
        Set::<A>::empty()
    } else {
        union_all(sets.drop_last()).union(sets.last())
    }
}

/// What is in all of the sets; nothing where there is no set.
pub open spec fn common<A>(sets: Seq<Set<A>>) -> Set<A>
    decreases sets.len(),
{
    if sets.len() == 0 {
        Set::<A>::empty()
    } else if sets.len() == 1 {
        sets[0]
    } else {
        common(sets.drop_last()).intersect(sets.last())
    }
}

/// Collects the members of all the sets.
pub fn conjunction<T: Key>(sets: Vec<VecSet<T>>) -> (acc: VecSet<T>)
    requires
        forall|i: int| 0 <= i < sets@.len() ==> (#[trigger] sets@[i]).wf(),
    ensures
        acc.wf(),
        acc@ == union_all(set_list(sets@)),
{
    let mut acc: VecSet<T> = VecSet::new();
    let mut i: usize = 0;
    assert(set_list(sets@).take(0) =~= Seq::<Set<T::V>>::empty());
    while i < sets.len()
        invariant
            i <= sets@.len(),
            acc.wf(),
            forall|k: int| 0 <= k < sets@.len() ==> (#[trigger] sets@[k]).wf(),
            acc@ == union_all(set_list(sets@).take(i as int)),
        decreases sets@.len() - i,
    {
        proof {
            let all = set_list(sets@);
            assert(all.take(i as int + 1).drop_last() =~= all.take(i as int));
            assert(all.take(i as int + 1).last() == sets@[i as int]@);
        }
        acc.extend(&sets[i]);
        i += 1;
    }
    assert(set_list(sets@).take(i as int) =~= set_list(sets@));
    acc
}

/// Keeps the members that all the sets have.
pub fn disjunction<T: Key>(sets: Vec<VecSet<T>>) -> (acc: VecSet<T>)
    requires
        forall|i: int| 0 <= i < sets@.len() ==> (#[trigger] sets@[i]).wf(),
    ensures
        acc.wf(),
        acc@ == common(set_list(sets@)),
{
    if sets.len() == 0 {
        return VecSet::new();
    }
    let mut acc: VecSet<T> = sets[0].replica();
    let mut i: usize = 1;
    proof {
        let all = set_list(sets@);
        assert(all.take(1).len() == 1);
        assert(all.take(1)[0] == sets@[0]@);
    }
    while i < sets.len()
        invariant
            1 <= i <= sets@.len(),
            acc.wf(),
            forall|k: int| 0 <= k < sets@.len() ==> (#[trigger] sets@[k]).wf(),
            acc@ == common(set_list(sets@).take(i as int)),
        decreases sets@.len() - i,
    {
        proof {
            let all = set_list(sets@);
            assert(all.take(i as int + 1).drop_last() =~= all.take(i as int));
            assert(all.take(i as int + 1).last() == sets@[i as int]@);
        }
        acc = acc.intersection(&sets[i]);
        i += 1;
    }
    assert(set_list(sets@).take(i as int) =~= set_list(sets@));
    acc
}

} // verus!
