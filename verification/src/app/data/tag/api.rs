//! Lists of all the tags of an index.
use crate::app::attr::api::{is_ghost, unghost};
use crate::app::data::query::collect::lines;
use crate::app::data::query::maps::tag_rows;
use crate::app::data::tag::statistics::{occurs, pairings, rearranged, tally, Statistics};
use crate::model::tag::TagExt;
use crate::model::tag::TagRow;
use crate::model::{Ids, TCol, Tid};
use crate::util::order::{is_permutation, key_views, lex_le, sort_order};
use crate::util::string::{append_str, collect, to_chars};
use crate::util::table::VecMap;
use vstd::prelude::*;

verus! {

/// The names of a list of tags.
pub open spec fn names_of(rows: Seq<TagRow>) -> Seq<Seq<char>> {
    rows.map_values(|r: TagRow| r.name)
}

/// The tags of a list by id; a later tag replaces an earlier one with the
/// same id.
pub open spec fn by_id(rows: Seq<TagRow>) -> Map<i64, Seq<char>>
    decreases rows.len(),
{
    if rows.len() == 0 {
        Map::<i64, Seq<char>>::empty()
    } else {
        by_id(rows.drop_last()).insert(rows.last().id as i64, rows.last().name)
    }
}

/// The names of a list of tags, by id.
pub fn query_all_tags_mapped(tags: Vec<TCol>) -> (m: VecMap<Tid, String>)
    ensures
        m.wf(),
        m@.map_values(|s: String| s@) == by_id(tag_rows(tags@)),
{
    let mut m: VecMap<Tid, String> = VecMap::new();
    let mut i: usize = 0;
    let ghost rows = tag_rows(tags@);
    assert(rows.take(0) =~= Seq::<TagRow>::empty());
    assert(m@.map_values(|s: String| s@) =~= Map::<i64, Seq<char>>::empty());
    while i < tags.len()
        invariant
            i <= tags@.len(),
            rows == tag_rows(tags@),
            m.wf(),
            m@.map_values(|s: String| s@) == by_id(rows.take(i as int)),
        decreases tags@.len() - i,
    {
        let ghost before = m@;
        let name = tags[i].1.clone();
        proof {
            let next = rows.take(i as int + 1);
            assert(next.drop_last() =~= rows.take(i as int));
            assert(next.last() == tags@[i as int].row());
        }
        m.insert(tags[i].0, name);
        proof {
            assert(m@.map_values(|s: String| s@) =~= before.map_values(|s: String| s@).insert(
                tags@[i as int].0,
                name@,
            ));
        }
        i += 1;
    }
    assert(rows.take(i as int) =~= rows);
    m
}

/// Sorts a list of tags by their names. Tags with the same name keep their
/// order.
pub fn sort_tags_lexically(tags: Vec<TCol>) -> (sorted: Vec<TCol>)
    ensures
        exists|perm: Seq<usize>| rearranged(tag_rows(sorted@), tag_rows(tags@), perm),
        forall|a: int, b: int|
            0 <= a < b < sorted@.len() ==> lex_le(
                (#[trigger] sorted@[a]).1@,
                (#[trigger] sorted@[b]).1@,
            ),
{
    let mut keys: Vec<Vec<char>> = Vec::new();
    let mut i: usize = 0;
    while i < tags.len()
        invariant
            i <= tags@.len(),
            keys@.len() == i,
            forall|k: int| 0 <= k < i ==> (#[trigger] keys@[k])@ == tags@[k].1@,
        decreases tags@.len() - i,
    {
        keys.push(to_chars(tags[i].1.as_str()));
        i += 1;
    }
    let order = sort_order(&keys);
    let mut sorted: Vec<TCol> = Vec::new();
    let mut k: usize = 0;
    let ghost rows = tag_rows(tags@);
    while k < order.len()
        invariant
            k <= order@.len(),
            order@.len() == tags@.len(),
            is_permutation(order@, tags@.len() as nat),
            rows == tag_rows(tags@),
            sorted@.len() == k,
            forall|q: int|
                0 <= q < k ==> (#[trigger] sorted@[q]).row() == rows[order@[q] as int]
                    && sorted@[q].1@ == tags@[order@[q] as int].1@,
        decreases order@.len() - k,
    {
        let at = order[k];
        sorted.push((tags[at].0, tags[at].1.clone()));
        k += 1;
    }
    proof {
        let ks = key_views(keys@);
        assert forall|a: int, b: int| 0 <= a < b < sorted@.len() implies lex_le(
            (#[trigger] sorted@[a]).1@,
            (#[trigger] sorted@[b]).1@,
        ) by {
            let x = order@[a];
            let y = order@[b];
            assert(lex_le(ks[x as int], ks[y as int]));
            assert(ks[x as int] == keys@[x as int]@);
            assert(ks[y as int] == keys@[y as int]@);
        }
        let out = tag_rows(sorted@);
        assert forall|q: int| 0 <= q < out.len() implies out[q] == rows[#[trigger] order@[q] as int] by {
            assert(sorted@[q].row() == rows[order@[q] as int]);
        }
        assert(rearranged(out, rows, order@));
    }
    sorted
}

/// The names that users are shown, of a list of names.
pub open spec fn shown(names: Seq<Seq<char>>) -> Seq<Seq<char>> {
    names.filter(|n: Seq<char>| !is_ghost(n))
}

/// The names of the tags that users are shown, each on a line of its own.
pub fn collect_to_string(tags: Vec<TCol>) -> (s: String)
    ensures
        s@ == lines(shown(names_of(tag_rows(tags@)))),
{
    let mut out: Vec<char> = Vec::new();
    let mut i: usize = 0;
    let ghost names = names_of(tag_rows(tags@));
    let ghost keep = |n: Seq<char>| !is_ghost(n);
    proof {
        assert(names.take(0) =~= Seq::<Seq<char>>::empty());
        assert(names.take(0).filter(keep) =~= Seq::<Seq<char>>::empty()) by {
            reveal(Seq::filter);
        }
    }
    while i < tags.len()
        invariant
            i <= tags@.len(),
            names == names_of(tag_rows(tags@)),
            keep == (|n: Seq<char>| !is_ghost(n)),
            out@ == lines(names.take(i as int).filter(keep)),
        decreases tags@.len() - i,
    {
        proof {
            assert(names.take(i as int + 1) =~= names.take(i as int).push(names[i as int]));
            crate::util::table::filter_push(names.take(i as int), names[i as int], keep);
            assert(names[i as int] == tags@[i as int].1@);
        }
        match unghost(tags[i].1.as_str()) {
            Some(name) => {
                proof {
                    let kept = names.take(i as int).filter(keep).push(names[i as int]);
                    assert(kept.drop_last() =~= names.take(i as int).filter(keep));
                    assert(kept.last() == name@);
                }
                append_str(&mut out, name);
                out.push('\n');
            },
            None => {},
        }
        i += 1;
    }
    assert(names.take(i as int) =~= names);
    collect(&out)
}

/// The statistics of the tags of an index, from all its associations.
pub fn query_tag_statistics(filetags: Vec<Ids>) -> (s: Statistics)
    ensures
        s.wf(),
        forall|t: i64| #[trigger] s.slots@.contains_key(t) <==> occurs(filetags@, t) > 0,
        forall|t: i64| #[trigger]
            s.slots@.contains_key(t) ==> s.slots@[t].count() == occurs(filetags@, t)
                && s.slots@[t].tid() == t,
        forall|a: i64, b: i64| #[trigger]
            s.count@.contains_key((a, b)) <==> tally(pairings(filetags@), a, b) > 0,
        forall|a: i64, b: i64| #[trigger]
            s.count@.contains_key((a, b)) ==> s.count@[(a, b)] == tally(
                pairings(filetags@),
                a,
                b,
            ),
{
    Statistics::from_filetags(filetags)
}

} // verus!
