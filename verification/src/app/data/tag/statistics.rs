//! How often each tag occurs, and how often each two tags occur on one file.
use crate::app::data::error::{Error, Fault};
use crate::model::{tag, Fid, Ids, Tid};
use crate::util::order::{
    is_permutation,
    key_views,
    lex_le,
    sort_order,
    sort_order_by_number,
};
use crate::util::string::to_chars;
use crate::util::table::{Key, VecMap, VecSet};
use vstd::prelude::*;

verus! {

/// The counts of one tag.
#[derive(Debug, Clone, Copy, PartialEq, Eq, Structural)]
pub struct Slot {
    id: Tid,
    occurrences: usize,
    pairings: usize,
}

impl Slot {
    /// The slot of a tag that occurred once.
    pub fn new(id: Tid) -> (s: Self)
        ensures
            s.tid() == id,
            s.count() == 1,
            s.paired() == 0,
    {
        Slot { id, occurrences: 1, pairings: 0 }
    }

    /// The id of the tag.
    pub closed spec fn tid(&self) -> Tid {
        self.id
    }

    /// How often the tag occurred.
    pub closed spec fn count(&self) -> usize {
        self.occurrences
    }

    /// How often the tag occurred together with another.
    pub closed spec fn paired(&self) -> usize {
        self.pairings
    }

    /// The id of the tag.
    pub fn id(&self) -> (id: Tid)
        ensures
            id == self.tid(),
    {
        self.id
    }

    /// How often the tag occurred.
    pub fn occurrences(&self) -> (n: usize)
        ensures
            n == self.count(),
    {
        self.occurrences
    }

    /// Counts one more occurrence. The count stays at the largest number
    /// that it can hold.
    pub fn bump_occurrence(&mut self)
        ensures
            final(self).tid() == old(self).tid(),
            final(self).paired() == old(self).paired(),
            final(self).count() == if old(self).count() < usize::MAX {
                (old(self).count() + 1) as usize
            } else {
                usize::MAX
            },
    {
        if self.occurrences < usize::MAX {
            self.occurrences += 1;
        }
    }

    /// Counts one more pairing. The count stays at the largest number that
    /// it can hold.
    pub fn bump_pairing(&mut self)
        ensures
            final(self).tid() == old(self).tid(),
            final(self).count() == old(self).count(),
            final(self).paired() == if old(self).paired() < usize::MAX {
                (old(self).paired() + 1) as usize
            } else {
                usize::MAX
            },
    {
        if self.pairings < usize::MAX {
            self.pairings += 1;
        }
    }
}

/// A number and one more, as far as the numbers of the machine go.
pub open spec fn bumped(n: nat) -> nat {
    if n < usize::MAX {
        n + 1
    } else {
        usize::MAX as nat
    }
}

/// The tags of a file among the first rows of a list, each once, in the
/// order in which they first come.
pub open spec fn tags_before(rows: Seq<Ids>, fid: i64) -> Seq<i64>
    decreases rows.len(),
{
    if rows.len() == 0 {
        Seq::<i64>::empty()
    } else {
        let before = tags_before(rows.drop_last(), fid);
        if rows.last().0 == fid && !before.contains(rows.last().1) {
            before.push(rows.last().1)
        } else {
            before
        }
    }
}

/// The pairs that one tag makes with each tag of a list.
pub open spec fn paired_with(tid: i64, others: Seq<i64>) -> Seq<Ids> {
    others.map_values(|t: i64| (tid, t))
}

/// The pairs of tags that occur together on one file: each row makes a pair
/// of its tag with each tag that its file had in the rows before.
pub open spec fn pairings(rows: Seq<Ids>) -> Seq<Ids>
    decreases rows.len(),
{
    if rows.len() == 0 {
        Seq::<Ids>::empty()
    } else {
        pairings(rows.drop_last()) + paired_with(
            rows.last().1,
            tags_before(rows.drop_last(), rows.last().0),
        )
    }
}

/// How often a tag occurs in the rows, counted as far as the numbers of the
/// machine go.
pub open spec fn occurs(rows: Seq<Ids>, tid: i64) -> nat
    decreases rows.len(),
{
    if rows.len() == 0 {
        0
    } else if rows.last().1 == tid {
        bumped(occurs(rows.drop_last(), tid))
    } else {
        occurs(rows.drop_last(), tid)
    }
}

/// How often two tags are paired, in either order, counted as far as the
/// numbers of the machine go.
pub open spec fn tally(pairs: Seq<Ids>, a: i64, b: i64) -> nat
    decreases pairs.len(),
{
    if pairs.len() == 0 {
        0
    } else if pairs.last() == (a, b) || pairs.last() == (b, a) {
        bumped(tally(pairs.drop_last(), a, b))
    } else {
        tally(pairs.drop_last(), a, b)
    }
}

/// The rows of a list, by tag and by file: a slot for each tag with the
/// number of its rows, the pairs that the rows make, and for each file its
/// tags, each once, in the order in which they first come. A file without a
/// row has no entry.
fn slots_pairs_and_assoc(rows: &Vec<Ids>) -> (r: (
    VecMap<Tid, Slot>,
    Vec<Ids>,
    VecMap<Fid, VecSet<Tid>>,
))
    ensures
        r.0.wf(),
        r.1@ == pairings(rows@),
        forall|t: i64| #[trigger] r.0@.contains_key(t) <==> occurs(rows@, t) > 0,
        forall|t: i64| #[trigger]
            r.0@.contains_key(t) ==> r.0@[t].count() == occurs(rows@, t) && r.0@[t].tid() == t
                && r.0@[t].paired() == 0,
        r.2.wf(),
        forall|f: i64| #[trigger]
            r.2@.contains_key(f) ==> r.2@[f].wf() && r.2@[f].order() == tags_before(rows@, f),
        forall|f: i64| !r.2@.contains_key(f) ==> #[trigger] tags_before(rows@, f).len() == 0,
{
    let mut pairs: Vec<Ids> = Vec::new();
    let mut assoc: VecMap<Fid, VecSet<Tid>> = VecMap::new();
    let mut slots: VecMap<Tid, Slot> = VecMap::new();
    let mut i: usize = 0;
    assert(rows@.take(0) =~= Seq::<Ids>::empty());
    while i < rows.len()
        invariant
            i <= rows@.len(),
            assoc.wf(),
            slots.wf(),
            pairs@ == pairings(rows@.take(i as int)),
            forall|f: i64| #[trigger]
                assoc@.contains_key(f) ==> assoc@[f].wf() && assoc@[f].order() == tags_before(
                    rows@.take(i as int),
                    f,
                ),
            forall|f: i64|
                !assoc@.contains_key(f) ==> #[trigger] tags_before(rows@.take(i as int), f).len()
                    == 0,
            forall|t: i64| #[trigger] slots@.contains_key(t) <==> occurs(rows@.take(i as int), t) > 0,
            forall|t: i64| #[trigger]
                slots@.contains_key(t) ==> slots@[t].count() == occurs(rows@.take(i as int), t)
                    && slots@[t].tid() == t && slots@[t].paired() == 0,
        decreases rows@.len() - i,
    {
        let (fid, tid) = rows[i];
        let ghost done = rows@.take(i as int);
        let ghost next = rows@.take(i as int + 1);
        let ghost old_assoc = assoc@;
        let ghost old_slots = slots@;
        proof {
            assert(next.drop_last() =~= done);
            assert(next.last() == (fid, tid));
        }
        match assoc.position(&fid) {
            Some(at) => {
                proof {
                    assoc.lemma_entries();
                }
                let mut set = assoc.swap_value_at(at, VecSet::new());
                let ghost others = set.order();
                assert(others == tags_before(done, fid));
                let n = set.len();
                let mut k: usize = 0;
                let ghost before = pairs@;
                let ghost made = paired_with(tid, others);
                assert(before + made.take(0) =~= before);
                while k < n
                    invariant
                        k <= n,
                        n == others.len(),
                        set.wf(),
                        others == set.order(),
                        made == paired_with(tid, others),
                        pairs@ == before + made.take(k as int),
                    decreases n - k,
                {
                    pairs.push((tid, *set.get(k)));
                    proof {
                        assert(made.take(k as int + 1) =~= made.take(k as int).push(made[k as int]));
                        assert(pairs@ =~= before + made.take(k as int + 1));
                    }
                    k += 1;
                }
                proof {
                    assert(made.take(n as int) =~= made);
                    set.lemma_order();
                }
                set.insert(tid);
                assoc.swap_value_at(at, set);
                proof {
                    assert(assoc@ =~= old_assoc.insert(fid, set));
                    assert forall|f: i64| #[trigger] assoc@.contains_key(f) implies assoc@[f].wf()
                        && assoc@[f].order() == tags_before(next, f) by {
                        if f != fid {
                            assert(old_assoc.contains_key(f));
                        }
                    }
                    assert forall|f: i64| !assoc@.contains_key(f) implies #[trigger] tags_before(
                        next,
                        f,
                    ).len() == 0 by {
                        assert(!old_assoc.contains_key(f));
                        assert(tags_before(done, f).len() == 0);
                    }
                }
            },
            None => {
                let mut set: VecSet<Tid> = VecSet::new();
                set.insert(tid);
                proof {
                    assert(tags_before(done, fid).len() == 0);
                    assert(tags_before(done, fid) =~= Seq::<i64>::empty());
                    assert(paired_with(tid, tags_before(done, fid)) =~= Seq::<Ids>::empty());
                    assert(pairs@ + Seq::<Ids>::empty() =~= pairs@);
                    assert(set.order() =~= tags_before(next, fid));
                }
                assoc.insert(fid, set);
                proof {
                    assert forall|f: i64| #[trigger] assoc@.contains_key(f) implies assoc@[f].wf()
                        && assoc@[f].order() == tags_before(next, f) by {
                        if f != fid {
                            assert(old_assoc.contains_key(f));
                        }
                    }
                    assert forall|f: i64| !assoc@.contains_key(f) implies #[trigger] tags_before(
                        next,
                        f,
                    ).len() == 0 by {
                        assert(!old_assoc.contains_key(f));
                        assert(tags_before(done, f).len() == 0);
                    }
                }
            },
        }
        match slots.position(&tid) {
            Some(at) => {
                proof {
                    slots.lemma_entries();
                }
                let mut slot = *slots.value_at(at);
                slot.bump_occurrence();
                slots.set_value_at(at, slot);
            },
            None => {
                slots.insert(tid, Slot::new(tid));
            },
        }
        proof {
            assert forall|t: i64| #[trigger] slots@.contains_key(t) <==> occurs(next, t) > 0 by {
                assert(old_slots.contains_key(t) <==> occurs(done, t) > 0);
            }
            assert forall|t: i64| #[trigger] slots@.contains_key(t) implies slots@[t].count()
                == occurs(next, t) && slots@[t].tid() == t && slots@[t].paired() == 0 by {
                if t != tid {
                    assert(old_slots.contains_key(t));
                } else {
                    if old_slots.contains_key(t) {
                    } else {
                        assert(occurs(done, t) == 0);
                    }
                }
            }
        }
        i += 1;
    }
    assert(rows@.take(i as int) =~= rows@);
    (slots, pairs, assoc)
}

/// How often each pair occurs, in either order.
fn count_pairs(slots: &mut VecMap<Tid, Slot>, pairs: &Vec<Ids>) -> (count: VecMap<Ids, usize>)
    requires
        old(slots).wf(),
    ensures
        final(slots).wf(),
        count.wf(),
        forall|a: i64, b: i64| #[trigger] count@.contains_key((a, b)) <==> tally(pairs@, a, b) > 0,
        forall|a: i64, b: i64| #[trigger]
            count@.contains_key((a, b)) ==> count@[(a, b)] == tally(pairs@, a, b),
        forall|t: i64| #[trigger] final(slots)@.contains_key(t) <==> old(slots)@.contains_key(t),
        forall|t: i64| #[trigger]
            final(slots)@.contains_key(t) ==> final(slots)@[t].count() == old(slots)@[t].count()
                && final(slots)@[t].tid() == old(slots)@[t].tid(),
{
    let mut count: VecMap<Ids, usize> = VecMap::new();
    let mut i: usize = 0;
    assert(pairs@.take(0) =~= Seq::<Ids>::empty());
    while i < pairs.len()
        invariant
            i <= pairs@.len(),
            slots.wf(),
            count.wf(),
            forall|a: i64, b: i64| #[trigger]
                count@.contains_key((a, b)) <==> tally(pairs@.take(i as int), a, b) > 0,
            forall|a: i64, b: i64| #[trigger]
                count@.contains_key((a, b)) ==> count@[(a, b)] == tally(
                    pairs@.take(i as int),
                    a,
                    b,
                ),
            forall|t: i64| #[trigger] slots@.contains_key(t) <==> old(slots)@.contains_key(t),
            forall|t: i64| #[trigger]
                slots@.contains_key(t) ==> slots@[t].count() == old(slots)@[t].count()
                    && slots@[t].tid() == old(slots)@[t].tid(),
        decreases pairs@.len() - i,
    {
        let (lhs, rhs) = pairs[i];
        let ghost done = pairs@.take(i as int);
        let ghost next = pairs@.take(i as int + 1);
        let ghost before = count@;
        proof {
            assert(next.drop_last() =~= done);
            assert(next.last() == (lhs, rhs));
            assert(before.contains_key((lhs, rhs)) <==> tally(done, lhs, rhs) > 0);
            assert(before.contains_key((rhs, lhs)) <==> tally(done, rhs, lhs) > 0);
            lemma_tally_symmetric(done, lhs, rhs);
        }
        let n: usize = match count.get(&(lhs, rhs)) {
            Some(n) => *n,
            None => 0,
        };
        let more: usize = if n < usize::MAX {
            n + 1
        } else {
            n
        };
        count.insert((lhs, rhs), more);
        count.insert((rhs, lhs), more);
        bump(slots, lhs);
        bump(slots, rhs);
        proof {
            assert forall|a: i64, b: i64| #[trigger] count@.contains_key((a, b)) <==> tally(
                next,
                a,
                b,
            ) > 0 by {
                assert(before.contains_key((a, b)) <==> tally(done, a, b) > 0);
            }
            assert forall|a: i64, b: i64| #[trigger] count@.contains_key((a, b)) implies count@[(
                a,
                b,
            )] == tally(next, a, b) by {
                if (a, b) == (lhs, rhs) || (a, b) == (rhs, lhs) {
                    lemma_tally_symmetric(done, a, b);
                } else {
                    assert(before.contains_key((a, b)));
                }
            }
        }
        i += 1;
    }
    assert(pairs@.take(i as int) =~= pairs@);
    count
}

/// Counts one more pairing of a tag that has a slot: the slot of the tag
/// has one more pairing, as far as the numbers of the machine go, and is
/// else as it was; the other slots stay as they are. Without a slot for the
/// tag nothing changes.
fn bump(slots: &mut VecMap<Tid, Slot>, tid: Tid)
    requires
        old(slots).wf(),
    ensures
        final(slots).wf(),
        final(slots).keys() == old(slots).keys(),
        forall|t: i64| #[trigger] final(slots)@.contains_key(t) <==> old(slots)@.contains_key(t),
        forall|t: i64| #[trigger]
            final(slots)@.contains_key(t) ==> final(slots)@[t].count() == old(slots)@[t].count()
                && final(slots)@[t].tid() == old(slots)@[t].tid(),
        forall|t: i64| #[trigger]
            final(slots)@.contains_key(t) && t != tid ==> final(slots)@[t] == old(slots)@[t],
        old(slots)@.contains_key(tid) ==> final(slots)@[tid].paired() == bumped(
            old(slots)@[tid].paired() as nat,
        ),
        !old(slots)@.contains_key(tid) ==> final(slots)@ == old(slots)@,
{
    match slots.position(&tid) {
        Some(at) => {
            proof {
                slots.lemma_entries();
            }
            let mut slot = *slots.value_at(at);
            slot.bump_pairing();
            slots.set_value_at(at, slot);
        },
        None => {},
    }
}

/// Two tags are paired as often in one order as in the other.
pub proof fn lemma_tally_symmetric(pairs: Seq<Ids>, a: i64, b: i64)
    ensures
        tally(pairs, a, b) == tally(pairs, b, a),
    decreases pairs.len(),
{
    if pairs.len() > 0 {
        lemma_tally_symmetric(pairs.drop_last(), a, b);
    }
}

/// The statistics of the tags of an index.
pub struct Statistics {
    pub count: VecMap<Ids, usize>,
    pub slots: VecMap<Tid, Slot>,
}

/// What a table reports of a tag that it does not hold.
pub open spec fn unnamed(id: i64) -> Fault {
    Fault::UnknownIntId { id: id as int }
}

/// The pairs of a table of counts with the names of their tags, in the order
/// of the table. The first tag without a name is an error.
pub open spec fn named_pairs(
    keys: Seq<Ids>,
    values: Seq<usize>,
    names: Map<i64, Seq<char>>,
    acc: Seq<((i64, Seq<char>), (i64, Seq<char>), usize)>,
) -> Result<Seq<((i64, Seq<char>), (i64, Seq<char>), usize)>, Fault>
    decreases keys.len(),
{
    if keys.len() == 0 || values.len() == 0 {
        Ok(acc)
    } else if !names.contains_key(keys[0].0) {
        Err(unnamed(keys[0].0))
    } else if !names.contains_key(keys[0].1) {
        Err(unnamed(keys[0].1))
    } else {
        named_pairs(
            keys.drop_first(),
            values.drop_first(),
            names,
            acc.push(
                ((keys[0].0, names[keys[0].0]), (keys[0].1, names[keys[0].1]), values[0]),
            ),
        )
    }
}

/// A list of pairs with names, as plain values.
pub open spec fn pair_views(items: Seq<(tag::Borrow, tag::Borrow, usize)>) -> Seq<
    ((i64, Seq<char>), (i64, Seq<char>), usize),
> {
    items.map_values(
        |p: (tag::Borrow, tag::Borrow, usize)| ((p.0.id, p.0.name@), (p.1.id, p.1.name@), p.2),
    )
}

/// The names of a table, as plain values.
pub open spec fn name_views(names: Map<i64, String>) -> Map<i64, Seq<char>> {
    names.map_values(|s: String| s@)
}

impl Statistics {
    /// Both tables are well formed.
    pub open spec fn wf(&self) -> bool {
        self.count.wf() && self.slots.wf()
    }

    /// The statistics of a list of associations: how often each tag occurs,
    /// and how often each two tags occur on one file.
    pub fn from_filetags(filetags: Vec<Ids>) -> (s: Self)
        ensures
            s.wf(),
            forall|t: i64| #[trigger] s.slots@.contains_key(t) <==> occurs(filetags@, t) > 0,
            forall|t: i64| #[trigger]
                s.slots@.contains_key(t) ==> s.slots@[t].count() == occurs(filetags@, t)
                    && s.slots@[t].tid() == t,
            forall|a: i64, b: i64| #[trigger]
                s.count@.contains_key((a, b)) <==> tally(pairings(filetags@), a, b) > 0,
            forall|a: i64, b: i64| #[trigger]
                s.count@.contains_key((a, b)) ==> s.count@[(a, b)] == tally(
                    pairings(filetags@),
                    a,
                    b,
                ),
    {
        let (mut slots, pairs, _) = slots_pairs_and_assoc(&filetags);
        let ghost first = slots@;
        let count = count_pairs(&mut slots, &pairs);
        proof {
            assert forall|t: i64| #[trigger] slots@.contains_key(t) implies slots@[t].count()
                == occurs(filetags@, t) && slots@[t].tid() == t by {
                assert(first.contains_key(t));
            }
            assert forall|t: i64| #[trigger] slots@.contains_key(t) <==> occurs(filetags@, t)
                > 0 by {
                assert(first.contains_key(t) <==> occurs(filetags@, t) > 0);
            }
        }
        Statistics { count, slots }
    }

    /// How often a tag occurs; not at all where it has no slot.
    pub fn occurrences(&self, id: Tid) -> (n: usize)
        requires
            self.wf(),
        ensures
            n == if self.slots@.contains_key(id) {
                self.slots@[id].count()
            } else {
                0
            },
    {
        match self.slots.get(&id) {
            Some(s) => s.occurrences(),
            None => 0,
        }
    }

    /// The pairs with the names of their tags and their counts, in the order
    /// of the table. A tag without a name is an error.
    pub fn iter_pairs_with_names(&self, names: &VecMap<Tid, String>) -> (r: Result<
        Vec<(tag::Borrow, tag::Borrow, usize)>,
        Error,
    >)
        requires
            self.wf(),
            names.wf(),
        ensures
            match named_pairs(
                self.count.keys(),
                self.count.values(),
                name_views(names@),
                Seq::<((i64, Seq<char>), (i64, Seq<char>), usize)>::empty(),
            ) {
                Ok(list) => r matches Ok(items) && pair_views(items@) == list,
                Err(f) => r matches Err(e) && e@ == f,
            },
    {
        let mut items: Vec<(tag::Borrow, tag::Borrow, usize)> = Vec::new();
        let n = self.count.len();
        let mut i: usize = 0;
        let ghost keys = self.count.keys();
        let ghost values = self.count.values();
        let ghost known = name_views(names@);
        assert(keys.skip(0) =~= keys);
        assert(values.skip(0) =~= values);
        assert(pair_views(items@) =~= Seq::<((i64, Seq<char>), (i64, Seq<char>), usize)>::empty());
        while i < n
            invariant
                i <= n,
                n == keys.len(),
                n == values.len(),
                self.wf(),
                names.wf(),
                keys == self.count.keys(),
                values == self.count.values(),
                known == name_views(names@),
                named_pairs(
                    keys,
                    values,
                    known,
                    Seq::<((i64, Seq<char>), (i64, Seq<char>), usize)>::empty(),
                ) == named_pairs(keys.skip(i as int), values.skip(i as int), known, pair_views(items@)),
            decreases n - i,
        {
            let (lid, rid) = *self.count.key_at(i);
            let count = *self.count.value_at(i);
            proof {
                assert(keys.skip(i as int)[0] == (lid, rid));
                assert(values.skip(i as int)[0] == count);
                assert(keys.skip(i as int).drop_first() =~= keys.skip(i + 1));
                assert(values.skip(i as int).drop_first() =~= values.skip(i + 1));
            }
            let lname = match names.get(&lid) {
                Some(name) => name.clone(),
                None => {
                    return Err(Error::UnknownIntId { id: lid });
                },
            };
            let rname = match names.get(&rid) {
                Some(name) => name.clone(),
                None => {
                    return Err(Error::UnknownIntId { id: rid });
                },
            };
            let item = (
                tag::Borrow { id: lid, name: lname },
                tag::Borrow { id: rid, name: rname },
                count,
            );
            proof {
                assert(pair_views(items@.push(item)) =~= pair_views(items@).push(
                    ((lid, known[lid]), (rid, known[rid]), count),
                ));
            }
            items.push(item);
            i += 1;
        }
        Ok(items)
    }

    /// The pairs with the names of their tags and their counts, in the order
    /// of the names of their first tags; pairs with the same first name are
    /// in the order of their counts.
    pub fn sorted_pairs_with_names(&self, names: &VecMap<Tid, String>) -> (r: Result<
        Vec<(tag::Borrow, tag::Borrow, usize)>,
        Error,
    >)
        requires
            self.wf(),
            names.wf(),
        ensures
            match named_pairs(
                self.count.keys(),
                self.count.values(),
                name_views(names@),
                Seq::<((i64, Seq<char>), (i64, Seq<char>), usize)>::empty(),
            ) {
                Ok(list) => r matches Ok(items) && sorted_from(pair_views(items@), list),
                Err(f) => r matches Err(e) && e@ == f,
            },
    {
        let items = match self.iter_pairs_with_names(names) {
            Ok(items) => items,
            Err(e) => {
                return Err(e);
            },
        };
        let ghost list = pair_views(items@);
        let mut counts: Vec<usize> = Vec::new();
        let mut i: usize = 0;
        while i < items.len()
            invariant
                i <= items@.len(),
                counts@.len() == i,
                forall|k: int| 0 <= k < i ==> counts@[k] == (#[trigger] items@[k]).2,
            decreases items@.len() - i,
        {
            counts.push(items[i].2);
            i += 1;
        }
        let by_count = sort_order_by_number(&counts);
        let mut keys: Vec<Vec<char>> = Vec::new();
        let mut k: usize = 0;
        while k < by_count.len()
            invariant
                k <= by_count@.len(),
                by_count@.len() == items@.len(),
                is_permutation(by_count@, items@.len() as nat),
                keys@.len() == k,
                forall|j: int| 0 <= j < k ==> (#[trigger] keys@[j])@ == items@[by_count@[j] as int].0.name@,
            decreases by_count@.len() - k,
        {
            keys.push(to_chars(items[by_count[k]].0.name.as_str()));
            k += 1;
        }
        let by_name = sort_order(&keys);
        let mut out: Vec<(tag::Borrow, tag::Borrow, usize)> = Vec::new();
        let mut j: usize = 0;
        while j < by_name.len()
            invariant
                j <= by_name@.len(),
                by_name@.len() == items@.len(),
                by_count@.len() == items@.len(),
                is_permutation(by_name@, items@.len() as nat),
                is_permutation(by_count@, items@.len() as nat),
                list == pair_views(items@),
                out@.len() == j,
                forall|q: int|
                    0 <= q < j ==> pair_views(out@)[q] == list[by_count@[by_name@[q] as int] as int],
            decreases by_name@.len() - j,
        {
            let at = by_count[by_name[j]];
            let item = (items[at].0.replica(), items[at].1.replica(), items[at].2);
            proof {
                assert(pair_views(out@.push(item)) =~= pair_views(out@).push(list[at as int]));
            }
            out.push(item);
            j += 1;
        }
        proof {
            let sorted = pair_views(out@);
            let ks = key_views(keys@);
            assert forall|a: int, b: int| 0 <= a < b < sorted.len() implies lex_le(
                (#[trigger] sorted[a]).0.1,
                (#[trigger] sorted[b]).0.1,
            ) && (sorted[a].0.1 == sorted[b].0.1 ==> sorted[a].2 <= sorted[b].2) by {
                let x = by_name@[a];
                let y = by_name@[b];
                assert(lex_le(ks[x as int], ks[y as int]));
                assert(ks[x as int] == keys@[x as int]@);
                assert(ks[y as int] == keys@[y as int]@);
                if sorted[a].0.1 == sorted[b].0.1 {
                    assert(ks[x as int] == ks[y as int]);
                    assert(x < y);
                    assert(counts@[by_count@[x as int] as int] <= counts@[by_count@[y as int] as int]);
                }
            }
            let perm = Seq::new(sorted.len(), |q: int| by_count@[by_name@[q] as int]);
            assert(forall|q: int| 0 <= q < sorted.len() ==> sorted[q] == list[#[trigger] perm[q] as int]);
            assert(perm.no_duplicates()) by {
                assert forall|a: int, b: int| 0 <= a < b < perm.len() implies perm[a] != perm[b] by {
                    assert(by_name@[a] != by_name@[b]);
                }
            }
            assert(rearranged(sorted, list, perm));
        }
        Ok(out)
    }
}

/// Whether `sorted` holds the items of `list` as `perm` arranges them.
pub open spec fn rearranged<T>(sorted: Seq<T>, list: Seq<T>, perm: Seq<usize>) -> bool {
    &&& is_permutation(perm, list.len())
    &&& sorted.len() == list.len()
    &&& forall|q: int| 0 <= q < sorted.len() ==> sorted[q] == list[#[trigger] perm[q] as int]
}

/// Whether `sorted` holds the items of `list`, each once, in the order of
/// the names of their first tags, and among equal names in the order of
/// their counts.
pub open spec fn sorted_from(
    sorted: Seq<((i64, Seq<char>), (i64, Seq<char>), usize)>,
    list: Seq<((i64, Seq<char>), (i64, Seq<char>), usize)>,
) -> bool {
    &&& exists|perm: Seq<usize>| rearranged(sorted, list, perm)
    &&& forall|a: int, b: int|
        0 <= a < b < sorted.len() ==> lex_le((#[trigger] sorted[a]).0.1, (#[trigger] sorted[b]).0.1)
            && (sorted[a].0.1 == sorted[b].0.1 ==> sorted[a].2 <= sorted[b].2)
}

} // verus!
