//! The decisions of an update, between the queries that the store answers.
//!
//! An update scans the file system, asks the store for the rows of the
//! files that were scanned, compares the two, and inserts and deletes what
//! differs: first files, then tags, then associations. The ids that the
//! store gives to what was inserted are mapped before the associations are
//! made.
use crate::app::data::query::maps::Maps;
use crate::app::data::update::diff::{Diff, FileKey, PairKey};
use crate::app::data::update::scan::Scan;
use crate::app::data::update::state::{Del, Ins};
use crate::model::file_tag::FileTag;
use crate::model::{file, tag, Ids, Tid};
use crate::util::collections::Error;
use crate::util::string::{collect, to_chars};
use crate::util::table::{views, Key, VecMap, VecSet};
use vstd::prelude::*;

verus! {

/// What separates the parts of a path.
pub const MAIN_SEPARATOR: char = '/';

/// The pattern that the paths under a directory are like: the directory, the
/// separator and `%`.
pub open spec fn under(directory: Seq<char>) -> Seq<char> {
    directory.push(MAIN_SEPARATOR).push('%')
}

/// The paths that the store is asked for: those of the files that were
/// named, and for each directory that was walked its own path and the
/// pattern of the paths under it.
pub struct Scope {
    pub files: Vec<String>,
    pub directories: Vec<(String, String)>,
}

/// The directories of a scope with their patterns, as plain values.
pub open spec fn patterns(directories: Seq<(String, String)>) -> Seq<(Seq<char>, Seq<char>)> {
    directories.map_values(|d: (String, String)| (d.0@, d.1@))
}

/// The directories of a list, each with the pattern of the paths under it.
pub open spec fn with_patterns(directories: Seq<Seq<char>>) -> Seq<(Seq<char>, Seq<char>)> {
    directories.map_values(|d: Seq<char>| (d, under(d)))
}

/// The paths that the store is to be asked for after a scan. The paths and
/// the directories are taken out of the scan.
pub fn query_scanned_file_ids(scan: &mut Scan) -> (scope: Scope)
    ensures
        views(scope.files@) == old(scan)@.files,
        patterns(scope.directories@) == with_patterns(old(scan)@.directories),
        final(scan)@.attributes == old(scan)@.attributes,
        final(scan)@.files.len() == 0,
        final(scan)@.directories.len() == 0,
        final(scan).wf() == old(scan).wf(),
{
    let files = scan.take_files();
    let taken = scan.take_directories();
    let mut directories: Vec<(String, String)> = Vec::new();
    let mut i: usize = 0;
    let ghost all = with_patterns(views(taken@));
    while i < taken.len()
        invariant
            i <= taken@.len(),
            all == with_patterns(views(taken@)),
            patterns(directories@) == all.take(i as int),
        decreases taken@.len() - i,
    {
        let mut like = to_chars(taken[i].as_str());
        like.push(MAIN_SEPARATOR);
        like.push('%');
        let pair = (taken[i].clone(), collect(&like));
        proof {
            assert(patterns(directories@.push(pair)) =~= patterns(directories@).push(
                (pair.0@, pair.1@),
            ));
            assert(all.take(i as int + 1) =~= all.take(i as int).push(all[i as int]));
        }
        directories.push(pair);
        i += 1;
    }
    assert(all.take(i as int) =~= all);
    Scope { files, directories }
}

/// The names of the tags whose ids the store is to be asked for: those to
/// insert, then those to delete.
pub fn deduplicate_tags(diff: &Diff) -> (names: Vec<String>)
    requires
        diff.wf(),
    ensures
        views(names@).to_set() == diff.fs().tags.difference(diff.db().tags).union(
            diff.db().tags.difference(diff.fs().tags),
        ),
{
    let (del, ins) = diff.tag_diff();
    let mut names: Vec<String> = Vec::new();
    names_of(&ins, &mut names);
    names_of(&del, &mut names);
    proof {
        assert(Set::<Seq<char>>::empty().union(ins@).union(del@) =~= ins@.union(del@));
        assert(Seq::<Seq<char>>::empty().to_set() =~= Set::<Seq<char>>::empty());
    }
    names
}

/// Adds the names of a set of tags to a list.
fn names_of(set: &VecSet<tag::Ident>, names: &mut Vec<String>)
    requires
        set.wf(),
    ensures
        views(final(names)@) == views(old(names)@) + set.order(),
        views(final(names)@).to_set() == views(old(names)@).to_set().union(set@),
{
    let n = set.len();
    let mut i: usize = 0;
    let ghost before = views(names@);
    proof {
        set.lemma_order();
        assert(before + set.order().take(0) =~= before);
    }
    while i < n
        invariant
            i <= n,
            n == set.order().len(),
            set.wf(),
            views(names@) == before + set.order().take(i as int),
        decreases n - i,
    {
        let ghost so_far = names@;
        names.push(set.get(i).name.clone());
        proof {
            assert(views(names@) =~= views(so_far).push(set.order()[i as int]));
            assert(set.order().take(i as int + 1) =~= set.order().take(i as int).push(
                set.order()[i as int],
            ));
        }
        i += 1;
    }
    proof {
        set.lemma_order();
        assert(set.order().take(n as int) =~= set.order());
        let whole = before + set.order();
        assert(whole.to_set() =~= before.to_set().union(set@)) by {
            assert forall|v: Seq<char>| whole.contains(v) <==> (before.contains(v)
                || set.order().contains(v)) by {
                if whole.contains(v) {
                    let k = choose|k: int| 0 <= k < whole.len() && whole[k] == v;
                    if k < before.len() {
                        assert(before[k] == v);
                    } else {
                        assert(set.order()[k - before.len()] == v);
                    }
                }
                if before.contains(v) {
                    let k = choose|k: int| 0 <= k < before.len() && before[k] == v;
                    assert(whole[k] == v);
                }
                if set.order().contains(v) {
                    let k = choose|k: int| 0 <= k < set.order().len() && set.order()[k] == v;
                    assert(whole[before.len() + k] == v);
                }
            }
        }
    }
}

/// The keys of a list of files to insert.
pub open spec fn insert_keys(files: Seq<file::Insert>) -> Seq<FileKey> {
    files.map_values(|f: file::Insert| f@)
}

/// The names of a list of tags to insert.
pub open spec fn insert_names(tags: Seq<tag::Insert>) -> Seq<Seq<char>> {
    tags.map_values(|t: tag::Insert| t@)
}

/// The files that an update inserts and deletes: it inserts those that only
/// the file system has, and deletes, by their paths, those that only the
/// index has.
pub fn process_file_diff(diff: &Diff, ins: &mut Ins, del: &mut Del)
    requires
        diff.wf(),
    ensures
        final(ins).tags == old(ins).tags,
        final(ins).filetags == old(ins).filetags,
        final(del).tags == old(del).tags,
        final(del).filetags == old(del).filetags,
        exists|added: Seq<FileKey>|
            #![auto]
            insert_keys(final(ins).files@) == insert_keys(old(ins).files@) + added
                && added.no_duplicates() && added.to_set() == diff.fs().files.difference(
                diff.db().files,
            ),
        exists|removed: Seq<FileKey>|
            #![auto]
            removed.no_duplicates() && removed.to_set() == diff.db().files.difference(
                diff.fs().files,
            ) && views(final(del).files@) == views(old(del).files@) + removed.map_values(
                |k: FileKey| k.0,
            ),
{
    let (fdel, fins) = diff.file_diff();
    let n = fins.len();
    let mut i: usize = 0;
    let ghost ins_before = insert_keys(ins.files@);
    let ghost del_before = views(del.files@);
    proof {
        fins.lemma_order();
        fdel.lemma_order();
        assert(ins_before + fins.order().take(0) =~= ins_before);
    }
    while i < n
        invariant
            i <= n,
            n == fins.order().len(),
            fins.wf(),
            ins.tags == old(ins).tags,
            ins.filetags == old(ins).filetags,
            insert_keys(ins.files@) == ins_before + fins.order().take(i as int),
        decreases n - i,
    {
        let f = fins.get(i);
        let ghost so_far = ins.files@;
        let item = file::Insert { path: f.path.clone(), kind: f.kind };
        ins.files.push(item);
        proof {
            assert(insert_keys(ins.files@) =~= insert_keys(so_far).push(fins.order()[i as int]));
            assert(fins.order().take(i as int + 1) =~= fins.order().take(i as int).push(
                fins.order()[i as int],
            ));
        }
        i += 1;
    }
    let m = fdel.len();
    let mut k: usize = 0;
    let ghost paths = fdel.order().map_values(|key: FileKey| key.0);
    proof {
        assert(fins.order().take(n as int) =~= fins.order());
        assert(del_before + paths.take(0) =~= del_before);
    }
    while k < m
        invariant
            k <= m,
            m == fdel.order().len(),
            fdel.wf(),
            del.tags == old(del).tags,
            del.filetags == old(del).filetags,
            paths == fdel.order().map_values(|key: FileKey| key.0),
            views(del.files@) == del_before + paths.take(k as int),
        decreases m - k,
    {
        let f = fdel.get(k);
        let ghost so_far = del.files@;
        del.files.push(f.path.clone());
        proof {
            assert(views(del.files@) =~= views(so_far).push(paths[k as int]));
            assert(paths.take(k as int + 1) =~= paths.take(k as int).push(paths[k as int]));
        }
        k += 1;
    }
    proof {
        assert(paths.take(m as int) =~= paths);
        let added = fins.order();
        assert(insert_keys(ins.files@) == ins_before + added && added.no_duplicates()
            && added.to_set() == diff.fs().files.difference(diff.db().files));
        let removed = fdel.order();
        assert(removed.no_duplicates() && removed.to_set() == diff.db().files.difference(
            diff.fs().files,
        ) && views(del.files@) == del_before + removed.map_values(|k: FileKey| k.0));
    }
}

/// The tags that an update inserts and deletes: of those that only the file
/// system has and of those that only the index has, the ones that the store
/// does not know by name. The names that the store knows are in `known`,
/// with their ids.
pub fn process_tag_diff(diff: &Diff, ins: &mut Ins, del: &mut Del, known: &VecMap<String, Tid>)
    requires
        diff.wf(),
        known.wf(),
    ensures
        final(ins).files == old(ins).files,
        final(ins).filetags == old(ins).filetags,
        final(del).files == old(del).files,
        final(del).filetags == old(del).filetags,
        exists|added: Seq<Seq<char>>|
            #![auto]
            insert_names(final(ins).tags@) == insert_names(old(ins).tags@) + added
                && added.no_duplicates() && added.to_set() == diff.fs().tags.difference(
                diff.db().tags,
            ).difference(known@.dom()),
        exists|removed: Seq<Seq<char>>|
            #![auto]
            views(final(del).tags@) == views(old(del).tags@) + removed && removed.no_duplicates()
                && removed.to_set() == diff.db().tags.difference(diff.fs().tags).difference(
                known@.dom(),
            ),
{
    let (tdel, tins) = diff.tag_diff();
    let ghost unknown = |name: Seq<char>| !known@.contains_key(name);
    let n = tins.len();
    let mut i: usize = 0;
    let ghost ins_before = insert_names(ins.tags@);
    let ghost del_before = views(del.tags@);
    proof {
        tins.lemma_order();
        tdel.lemma_order();
        assert(ins_before + tins.order().take(0).filter(unknown) =~= ins_before);
        assert(del_before + tdel.order().take(0).filter(unknown) =~= del_before);
    }
    while i < n
        invariant
            i <= n,
            n == tins.order().len(),
            tins.wf(),
            known.wf(),
            unknown == (|name: Seq<char>| !known@.contains_key(name)),
            ins.files == old(ins).files,
            ins.filetags == old(ins).filetags,
            insert_names(ins.tags@) == ins_before + tins.order().take(i as int).filter(unknown),
        decreases n - i,
    {
        let t = tins.get(i);
        proof {
            let s = tins.order();
            assert(s.take(i as int + 1) =~= s.take(i as int).push(s[i as int]));
            crate::util::table::filter_push(s.take(i as int), s[i as int], unknown);
        }
        if !known.contains_key(&t.name) {
            let ghost so_far = ins.tags@;
            ins.tags.push(tag::Insert { name: t.name.clone() });
            proof {
                assert(insert_names(ins.tags@) =~= insert_names(so_far).push(
                    tins.order()[i as int],
                ));
            }
        }
        i += 1;
    }
    let m = tdel.len();
    let mut k: usize = 0;
    while k < m
        invariant
            k <= m,
            m == tdel.order().len(),
            tdel.wf(),
            known.wf(),
            unknown == (|name: Seq<char>| !known@.contains_key(name)),
            del.files == old(del).files,
            del.filetags == old(del).filetags,
            views(del.tags@) == del_before + tdel.order().take(k as int).filter(unknown),
        decreases m - k,
    {
        let t = tdel.get(k);
        proof {
            let s = tdel.order();
            assert(s.take(k as int + 1) =~= s.take(k as int).push(s[k as int]));
            crate::util::table::filter_push(s.take(k as int), s[k as int], unknown);
        }
        if !known.contains_key(&t.name) {
            let ghost so_far = del.tags@;
            del.tags.push(t.name.clone());
            proof {
                assert(views(del.tags@) =~= views(so_far).push(tdel.order()[k as int]));
            }
        }
        k += 1;
    }
    proof {
        let a = tins.order();
        let b = tdel.order();
        assert(a.take(n as int) =~= a);
        assert(b.take(m as int) =~= b);
        crate::util::table::filter_keeps_distinct(a, unknown);
        crate::util::table::filter_keeps_distinct(b, unknown);
        assert(a.filter(unknown).to_set() =~= tins@.difference(known@.dom())) by {
            assert forall|v: Seq<char>| a.filter(unknown).contains(v) <==> (a.contains(v)
                && unknown(v)) by {
                crate::util::table::filter_members(a, unknown, v);
            }
        }
        assert(b.filter(unknown).to_set() =~= tdel@.difference(known@.dom())) by {
            assert forall|v: Seq<char>| b.filter(unknown).contains(v) <==> (b.contains(v)
                && unknown(v)) by {
                crate::util::table::filter_members(b, unknown, v);
            }
        }
        let added = a.filter(unknown);
        assert(insert_names(ins.tags@) == ins_before + added && added.no_duplicates()
            && added.to_set() == diff.fs().tags.difference(diff.db().tags).difference(
            known@.dom(),
        ));
        let removed = b.filter(unknown);
        assert(views(del.tags@) == del_before + removed && removed.no_duplicates()
            && removed.to_set() == diff.db().tags.difference(diff.fs().tags).difference(
            known@.dom(),
        ));
    }
}

/// The pairs of ids of a list of associations by key: each key stands for
/// the id that the maps have for it. The first key that the maps do not have
/// is an error.
pub open spec fn id_pairs(maps: &Maps, keys: Seq<PairKey>, acc: Seq<Ids>) -> Option<Seq<Ids>>
    decreases keys.len(),
{
    if keys.len() == 0 {
        Some(acc)
    } else if !maps.file_ids().contains_key(keys[0].0) || !maps.tag_ids().contains_key(keys[0].1) {
        None
    } else {
        id_pairs(
            maps,
            keys.drop_first(),
            acc.push((maps.file_ids()[keys[0].0], maps.tag_ids()[keys[0].1])),
        )
    }
}

/// Whether the maps have the file and the tag of an association.
pub open spec fn has_pair(maps: &Maps, key: PairKey) -> bool {
    maps.file_ids().contains_key(key.0) && maps.tag_ids().contains_key(key.1)
}

/// Whether the maps have the file and the tag of every association of a set.
pub open spec fn has_pairs(maps: &Maps, set: Set<PairKey>) -> bool {
    forall|key: PairKey| set.contains(key) ==> has_pair(maps, key)
}

/// The associations of a list have pairs of ids exactly where the maps have
/// the file and the tag of each.
pub proof fn lemma_id_pairs(maps: &Maps, keys: Seq<PairKey>, acc: Seq<Ids>)
    ensures
        id_pairs(maps, keys, acc) is Some <==> has_pairs(maps, keys.to_set()),
    decreases keys.len(),
{
    if keys.len() == 0 {
        assert forall|key: PairKey| keys.to_set().contains(key) implies has_pair(maps, key) by {
            assert(keys.contains(key));
        }
    } else {
        let rest = keys.drop_first();
        assert(keys.to_set().contains(keys[0])) by {
            assert(keys.contains(keys[0]));
        }
        if has_pair(maps, keys[0]) {
            let next = acc.push((maps.file_ids()[keys[0].0], maps.tag_ids()[keys[0].1]));
            lemma_id_pairs(maps, rest, next);
            if has_pairs(maps, rest.to_set()) {
                assert forall|key: PairKey| keys.to_set().contains(key) implies has_pair(
                    maps,
                    key,
                ) by {
                    let i = choose|i: int| 0 <= i < keys.len() && keys[i] == key;
                    if i > 0 {
                        assert(rest[i - 1] == key);
                        assert(rest.contains(key));
                    }
                }
            }
            if has_pairs(maps, keys.to_set()) {
                assert forall|key: PairKey| rest.to_set().contains(key) implies has_pair(
                    maps,
                    key,
                ) by {
                    let i = choose|i: int| 0 <= i < rest.len() && rest[i] == key;
                    assert(keys[i + 1] == key);
                    assert(keys.contains(key));
                }
            }
        }
    }
}

/// Whether `keys` lists the associations of a set, each once, and `ids` are
/// the pairs of ids that the maps have for them.
pub open spec fn lists_ids(maps: &Maps, keys: Seq<PairKey>, set: Set<PairKey>, ids: Seq<Ids>) -> bool {
    &&& keys.no_duplicates()
    &&& keys.to_set() == set
    &&& id_pairs(maps, keys, Seq::<Ids>::empty()) == Some(ids)
}

/// The pairs of ids of a list of associations to insert.
pub open spec fn pair_ids(rows: Seq<FileTag>) -> Seq<Ids> {
    rows.map_values(|r: FileTag| (r.file_id, r.tag_id))
}

/// The pairs of ids of a set of associations by key.
fn ids_of(set: &VecSet<(file::Ident, tag::Ident)>, maps: &Maps) -> (r: Result<Vec<Ids>, Error>)
    requires
        set.wf(),
        maps.wf(),
    ensures
        match id_pairs(maps, set.order(), Seq::<Ids>::empty()) {
            Some(pairs) => r matches Ok(v) && v@ == pairs,
            None => r matches Err(e) && e@ == Seq::<char>::empty(),
        },
{
    let n = set.len();
    let mut out: Vec<Ids> = Vec::new();
    let mut i: usize = 0;
    let ghost order = set.order();
    assert(order.skip(0) =~= order);
    proof {
        maps.lemma_wf();
    }
    while i < n
        invariant
            i <= n,
            n == order.len(),
            order == set.order(),
            set.wf(),
            maps.wf(),
            maps.wf_fids(),
            maps.wf_tids(),
            id_pairs(maps, order, Seq::<Ids>::empty()) == id_pairs(
                maps,
                order.skip(i as int),
                out@,
            ),
        decreases n - i,
    {
        let key = set.get(i);
        proof {
            assert(order.skip(i as int)[0] == key@);
            assert(order.skip(i as int).drop_first() =~= order.skip(i + 1));
        }
        let f = match maps.fids().by_alt(&key.0) {
            Ok(f) => *f,
            Err(e) => {
                return Err(e);
            },
        };
        let t = match maps.tids().by_alt(&key.1) {
            Ok(t) => *t,
            Err(e) => {
                return Err(e);
            },
        };
        out.push((f, t));
        i += 1;
    }
    Ok(out)
}

/// The associations that an update inserts and deletes, by the ids that the
/// maps have for the files and the tags: it inserts those that only the file
/// system has, and deletes those that only the index has. It fails exactly
/// where the maps do not have the file or the tag of one of them, and
/// nothing is added then.
pub fn process_filetag_diff(diff: &Diff, ins: &mut Ins, del: &mut Del, maps: &Maps) -> (r: Result<
    (),
    Error,
>)
    requires
        diff.wf(),
        maps.wf(),
    ensures
        final(ins).files == old(ins).files,
        final(ins).tags == old(ins).tags,
        final(del).files == old(del).files,
        final(del).tags == old(del).tags,
        match r {
            Ok(_) => exists|added: Seq<PairKey>, removed: Seq<PairKey>, a: Seq<Ids>, b: Seq<Ids>|
                #![auto]
                lists_ids(maps, added, diff.fs().pairs.difference(diff.db().pairs), a)
                    && lists_ids(maps, removed, diff.db().pairs.difference(diff.fs().pairs), b)
                    && pair_ids(final(ins).filetags@) == pair_ids(old(ins).filetags@) + a
                    && final(del).filetags@ == old(del).filetags@ + b,
            Err(e) => e@ == Seq::<char>::empty() && final(ins).filetags == old(ins).filetags
                && final(del).filetags == old(del).filetags,
        },
        r is Ok <==> has_pairs(maps, diff.fs().pairs.difference(diff.db().pairs)) && has_pairs(
            maps,
            diff.db().pairs.difference(diff.fs().pairs),
        ),
{
    let (pdel, pins) = diff.filetag_diff();
    proof {
        pins.lemma_order();
        pdel.lemma_order();
        lemma_id_pairs(maps, pins.order(), Seq::<Ids>::empty());
        lemma_id_pairs(maps, pdel.order(), Seq::<Ids>::empty());
    }
    let inserts = match ids_of(&pins, maps) {
        Ok(v) => v,
        Err(e) => {
            return Err(e);
        },
    };
    let deletes = match ids_of(&pdel, maps) {
        Ok(v) => v,
        Err(e) => {
            return Err(e);
        },
    };
    let ghost ins_before = pair_ids(ins.filetags@);
    let ghost del_before = del.filetags@;
    let mut i: usize = 0;
    assert(ins_before + inserts@.take(0) =~= ins_before);
    while i < inserts.len()
        invariant
            i <= inserts@.len(),
            ins.files == old(ins).files,
            ins.tags == old(ins).tags,
            pair_ids(ins.filetags@) == ins_before + inserts@.take(i as int),
        decreases inserts@.len() - i,
    {
        let (f, t) = inserts[i];
        let ghost so_far = ins.filetags@;
        ins.filetags.push(FileTag { file_id: f, tag_id: t });
        proof {
            assert(pair_ids(ins.filetags@) =~= pair_ids(so_far).push((f, t)));
            assert(inserts@.take(i as int + 1) =~= inserts@.take(i as int).push(inserts@[i as int]));
        }
        i += 1;
    }
    let mut k: usize = 0;
    assert(del_before + deletes@.take(0) =~= del_before);
    while k < deletes.len()
        invariant
            k <= deletes@.len(),
            del.files == old(del).files,
            del.tags == old(del).tags,
            del.filetags@ == del_before + deletes@.take(k as int),
        decreases deletes@.len() - k,
    {
        del.filetags.push(deletes[k]);
        proof {
            assert(deletes@.take(k as int + 1) =~= deletes@.take(k as int).push(deletes@[k as int]));
            assert(del.filetags@ =~= del_before + deletes@.take(k as int + 1));
        }
        k += 1;
    }
    proof {
        assert(inserts@.take(i as int) =~= inserts@);
        assert(deletes@.take(k as int) =~= deletes@);
        let added = pins.order();
        let removed = pdel.order();
        let a = inserts@;
        let b = deletes@;
        assert(lists_ids(maps, added, diff.fs().pairs.difference(diff.db().pairs), a)
            && lists_ids(maps, removed, diff.db().pairs.difference(diff.fs().pairs), b)
            && pair_ids(ins.filetags@) == pair_ids(old(ins).filetags@) + a && del.filetags@
            == old(del).filetags@ + b);
    }
    Ok(())
}

} // verus!
