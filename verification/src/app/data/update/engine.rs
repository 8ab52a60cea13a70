//! An update, step by step: each step says what it needs of the store, and
//! takes what the store answered.
//!
//! The files that were scanned are compared with what the store holds for
//! their paths. What differs is inserted and deleted in three groups: first
//! files, then tags, then associations, which need the ids of both.
use crate::app::attr::file::File;
use crate::app::data::error as data;
use crate::app::data::query::api::{firsts, inconsistent, query_associated, query_columns, seconds};
use crate::app::data::query::maps::{
    borrow_files,
    borrow_tags,
    borrowed_files,
    borrowed_tags,
    file_rows,
    files_by_id,
    tag_rows,
    tags_by_id,
    Maps,
};
use crate::app::data::query::state::wrong_state;
use crate::app::data::update::api::{
    deduplicate_tags,
    has_pairs,
    insert_keys,
    insert_names,
    lists_ids,
    pair_ids,
    process_file_diff,
    process_filetag_diff,
    process_tag_diff,
    query_scanned_file_ids,
    Scope,
};
use crate::app::data::update::diff::{indexed, nothing, scanned, Diff, FileKey, PairKey, Side};
use crate::app::data::update::scan::Scan;
use crate::app::data::update::state::{Del, Ins};
use crate::app::meta::action::all_wf;
use crate::model::file::FileRow;
use crate::model::file_tag::FileTag;
use crate::model::tag::TagRow;
use crate::model::{file, tag, FCol, Fid, Ids, TCol, Tid};
use crate::util::error::{Error, Fault};
use crate::util::table::{views, VecMap};
use vstd::prelude::*;

verus! {

/// The stages of an update.
#[derive(Debug, Clone, Copy, PartialEq, Eq, Structural)]
pub enum Stage {
    Scanned,
    Selected,
    Raw,
    Files,
    Names,
    Tags,
    FileTags,
    Done,
}

/// The kinds of what a step needs and of what came.
#[derive(Debug, Clone, Copy, PartialEq, Eq, Structural)]
pub enum Need {
    Ids,
    Rows,
    Columns,
    Files,
    Names,
    Tags,
    FileTags,
    Nothing,
}

/// What the next step of an update needs of the store.
pub enum Request<'a> {
    /// The ids of the files with one of the paths, or at or under one of the
    /// directories.
    Ids(&'a Scope),
    /// The associations of the files with these ids.
    Rows(&'a Vec<Fid>),
    /// The rows of the files and of the tags with these ids.
    Columns { fids: Vec<Fid>, tids: Vec<Tid> },
    /// The files with these paths are to be deleted and these files are to be
    /// inserted; then the rows of the files that were inserted.
    Files { delete: &'a Vec<String>, insert: &'a Vec<file::Insert> },
    /// The tags with these names that the store holds, with their ids.
    Names(&'a Vec<String>),
    /// The tags with these names are to be deleted and these tags are to be
    /// inserted; then the rows of the tags that were inserted.
    Tags { delete: &'a Vec<String>, insert: &'a Vec<tag::Insert> },
    /// These associations are to be inserted, and those with these ids are
    /// to be deleted.
    FileTags { insert: &'a Vec<FileTag>, delete: &'a Vec<Ids> },
    /// Nothing.
    Nothing,
}

/// What the store answered.
pub enum Event {
    /// The ids of the files.
    Ids(Vec<Fid>),
    /// The associations.
    Rows(Vec<Ids>),
    /// The rows of files and of tags.
    Columns(Vec<FCol>, Vec<TCol>),
    /// The rows of the files that were inserted.
    Files(Vec<FCol>),
    /// The tags that the store holds, by name.
    Names(Vec<(String, Tid)>),
    /// The rows of the tags that were inserted.
    Tags(Vec<TCol>),
    /// The associations were inserted and deleted.
    Stored,
    /// Nothing.
    Nothing,
}

impl<'a> Request<'a> {
    /// The kind of the request.
    pub open spec fn kind(&self) -> Need {
        match self {
            Request::Ids(_) => Need::Ids,
            Request::Rows(_) => Need::Rows,
            Request::Columns { .. } => Need::Columns,
            Request::Files { .. } => Need::Files,
            Request::Names(_) => Need::Names,
            Request::Tags { .. } => Need::Tags,
            Request::FileTags { .. } => Need::FileTags,
            Request::Nothing => Need::Nothing,
        }
    }
}

impl Event {
    /// The kind of the event.
    pub open spec fn kind(&self) -> Need {
        match self {
            Event::Ids(_) => Need::Ids,
            Event::Rows(_) => Need::Rows,
            Event::Columns(_, _) => Need::Columns,
            Event::Files(_) => Need::Files,
            Event::Names(_) => Need::Names,
            Event::Tags(_) => Need::Tags,
            Event::Stored => Need::FileTags,
            Event::Nothing => Need::Nothing,
        }
    }
}

/// What the step from a stage needs.
pub open spec fn needed(stage: Stage) -> Need {
    match stage {
        Stage::Scanned => Need::Ids,
        Stage::Selected => Need::Rows,
        Stage::Raw => Need::Columns,
        Stage::Files => Need::Files,
        Stage::Names => Need::Names,
        Stage::Tags => Need::Tags,
        Stage::FileTags => Need::FileTags,
        Stage::Done => Need::Nothing,
    }
}

/// The stage that the step from a stage leads to.
pub open spec fn following(stage: Stage) -> Stage {
    match stage {
        Stage::Scanned => Stage::Selected,
        Stage::Selected => Stage::Raw,
        Stage::Raw => Stage::Files,
        Stage::Files => Stage::Names,
        Stage::Names => Stage::Tags,
        Stage::Tags => Stage::FileTags,
        Stage::FileTags => Stage::Done,
        Stage::Done => Stage::Done,
    }
}

/// The name of a stage.
pub open spec fn stage_name(stage: Stage) -> Seq<char> {
    match stage {
        Stage::Scanned => "scanned"@,
        Stage::Selected => "selected"@,
        Stage::Raw => "raw"@,
        Stage::Files => "files"@,
        Stage::Names => "names"@,
        Stage::Tags => "tags"@,
        Stage::FileTags => "filetags"@,
        Stage::Done => "done"@,
    }
}

/// Whether each association of a list has its file and its tag among the
/// rows.
pub open spec fn indexable(files: Map<int, FileRow>, tags: Map<int, TagRow>, rows: Seq<Ids>) -> bool {
    forall|i: int|
        0 <= i < rows.len() ==> files.contains_key((#[trigger] rows[i]).0 as int)
            && tags.contains_key(rows[i].1 as int)
}

/// The associations of a list can be put by key exactly where each has its
/// file and its tag in the maps.
pub proof fn lemma_indexable(maps: &Maps, rows: Seq<Ids>, acc: Side)
    ensures
        indexed(maps, rows, acc) is Some <==> indexable(maps.file_map(), maps.tag_map(), rows),
    decreases rows.len(),
{
    if rows.len() > 0 {
        let rest = rows.drop_first();
        if maps.file_map().contains_key(rows[0].0 as int) && maps.tag_map().contains_key(
            rows[0].1 as int,
        ) {
            let f = maps.file_map()[rows[0].0 as int];
            let t = maps.tag_map()[rows[0].1 as int];
            let next = crate::app::data::update::diff::with_pair(acc, (f.path, f.kind), t.name);
            lemma_indexable(maps, rest, next);
            if indexable(maps.file_map(), maps.tag_map(), rest) {
                assert forall|i: int| 0 <= i < rows.len() implies maps.file_map().contains_key(
                    (#[trigger] rows[i]).0 as int,
                ) && maps.tag_map().contains_key(rows[i].1 as int) by {
                    if i > 0 {
                        assert(rows[i] == rest[i - 1]);
                    }
                }
            }
            if indexable(maps.file_map(), maps.tag_map(), rows) {
                assert forall|i: int| 0 <= i < rest.len() implies maps.file_map().contains_key(
                    (#[trigger] rest[i]).0 as int,
                ) && maps.tag_map().contains_key(rest[i].1 as int) by {
                    assert(rest[i] == rows[i + 1]);
                }
            }
        } else {
            assert(rows[0] == rows[0]);
        }
    }
}

/// The files of a table with the rows of a list added; a later row replaces
/// an earlier one with the same id.
pub open spec fn files_added(files: Map<int, FileRow>, rows: Seq<FileRow>) -> Map<int, FileRow>
    decreases rows.len(),
{
    if rows.len() == 0 {
        files
    } else {
        files_added(files, rows.drop_last()).insert(rows.last().id, rows.last())
    }
}

/// The ids of the files of a table by key, with those of a list of rows
/// added.
pub open spec fn file_ids_added(ids: Map<FileKey, i64>, rows: Seq<FileRow>) -> Map<FileKey, i64>
    decreases rows.len(),
{
    if rows.len() == 0 {
        ids
    } else {
        file_ids_added(ids, rows.drop_last()).insert(
            (rows.last().path, rows.last().kind),
            rows.last().id as i64,
        )
    }
}

/// The tags of a table with the rows of a list added; a later row replaces
/// an earlier one with the same id.
pub open spec fn tags_added(tags: Map<int, TagRow>, rows: Seq<TagRow>) -> Map<int, TagRow>
    decreases rows.len(),
{
    if rows.len() == 0 {
        tags
    } else {
        tags_added(tags, rows.drop_last()).insert(rows.last().id, rows.last())
    }
}

/// The ids of the tags of a table by name, with those of a list of rows
/// added.
pub open spec fn tag_ids_added(ids: Map<Seq<char>, i64>, rows: Seq<TagRow>) -> Map<Seq<char>, i64>
    decreases rows.len(),
{
    if rows.len() == 0 {
        ids
    } else {
        tag_ids_added(ids, rows.drop_last()).insert(rows.last().name, rows.last().id as i64)
    }
}

/// The tags that the store holds, as rows.
pub open spec fn known_rows(list: Seq<(String, Tid)>) -> Seq<TagRow> {
    list.map_values(|p: (String, Tid)| TagRow { id: p.1 as int, name: p.0@ })
}

/// The ids of the tags that the store holds, by name; a later one replaces
/// an earlier one with the same name.
pub open spec fn known_ids(list: Seq<(String, Tid)>) -> Map<Seq<char>, i64> {
    tag_ids_added(Map::<Seq<char>, i64>::empty(), known_rows(list))
}

/// Whether the files to insert and the paths to delete are those of a diff:
/// the files that only the file system has, and the paths of those that only
/// the index has, each once.
pub open spec fn planned_files(diff: Diff, insert: Seq<file::Insert>, delete: Seq<String>) -> bool {
    &&& exists|added: Seq<FileKey>|
        #![auto]
        insert_keys(insert) == added && added.no_duplicates() && added.to_set()
            == diff.fs().files.difference(diff.db().files)
    &&& exists|removed: Seq<FileKey>|
        #![auto]
        removed.no_duplicates() && removed.to_set() == diff.db().files.difference(
            diff.fs().files,
        ) && views(delete) == removed.map_values(|k: FileKey| k.0)
}

/// Whether the tags to insert and the names to delete are those of a diff:
/// of the tags that only the file system has and of those that only the
/// index has, the ones that the store does not hold, each once.
pub open spec fn planned_tags(
    diff: Diff,
    known: Map<Seq<char>, i64>,
    insert: Seq<tag::Insert>,
    delete: Seq<String>,
) -> bool {
    &&& exists|added: Seq<Seq<char>>|
        #![auto]
        insert_names(insert) == added && added.no_duplicates() && added.to_set()
            == diff.fs().tags.difference(diff.db().tags).difference(known.dom())
    &&& exists|removed: Seq<Seq<char>>|
        #![auto]
        views(delete) == removed && removed.no_duplicates() && removed.to_set()
            == diff.db().tags.difference(diff.fs().tags).difference(known.dom())
}

/// Whether the associations to insert and to delete are those of a diff, by
/// the ids that the maps have: those that only the file system has, and
/// those that only the index has, each once.
pub open spec fn planned_pairs(diff: Diff, maps: &Maps, insert: Seq<FileTag>, delete: Seq<Ids>) -> bool {
    exists|added: Seq<PairKey>, removed: Seq<PairKey>|
        #![auto]
        lists_ids(maps, added, diff.fs().pairs.difference(diff.db().pairs), pair_ids(insert))
            && lists_ids(maps, removed, diff.db().pairs.difference(diff.fs().pairs), delete)
}

/// Whether each association of a set has the id of its file and the id of
/// its tag in two tables.
pub open spec fn pairs_known(
    file_ids: Map<FileKey, i64>,
    tag_ids: Map<Seq<char>, i64>,
    set: Set<PairKey>,
) -> bool {
    forall|key: PairKey|
        set.contains(key) ==> file_ids.contains_key(key.0) && tag_ids.contains_key(key.1)
}

/// Whether the associations of a diff can be planned once the tags of a
/// list of rows are mapped: the maps then have the file and the tag of each
/// association that only one side has.
pub open spec fn plannable(diff: Diff, maps: Maps, rows: Seq<TagRow>) -> bool {
    let tags = tag_ids_added(maps.tag_ids(), rows);
    pairs_known(maps.file_ids(), tags, diff.fs().pairs.difference(diff.db().pairs))
        && pairs_known(maps.file_ids(), tags, diff.db().pairs.difference(diff.fs().pairs))
}

/// An update at one of its stages, with what it holds there.
pub enum Update {
    /// The files were scanned.
    Scanned { attributes: Vec<File>, scope: Scope },
    /// The store gave the ids of the files at the paths that were scanned.
    Selected { attributes: Vec<File>, fids: Vec<Fid> },
    /// The store gave the associations of those files.
    Raw { attributes: Vec<File>, rows: Vec<Ids> },
    /// The two sides were compared; the files are to be stored.
    Files { diff: Diff, maps: Maps, ins: Ins, del: Del },
    /// The files were stored; the store is asked for the tags it holds.
    Names { diff: Diff, maps: Maps, ins: Ins, del: Del, names: Vec<String> },
    /// The tags are to be stored.
    Tags { diff: Diff, maps: Maps, ins: Ins, del: Del },
    /// The associations are to be stored.
    FileTags { ins: Ins, del: Del },
    /// All was stored.
    Done { ins: Ins, del: Del },
}

impl Update {
    /// The parts of the update are well formed.
    pub open spec fn wf(&self) -> bool {
        match self {
            Update::Scanned { attributes, .. } => all_wf(attributes@),
            Update::Selected { attributes, .. } => all_wf(attributes@),
            Update::Raw { attributes, .. } => all_wf(attributes@),
            Update::Files { diff, maps, .. } => diff.wf() && maps.wf(),
            Update::Names { diff, maps, .. } => diff.wf() && maps.wf(),
            Update::Tags { diff, maps, .. } => diff.wf() && maps.wf(),
            Update::FileTags { .. } => true,
            Update::Done { .. } => true,
        }
    }

    /// The stage of the update.
    pub open spec fn stage(&self) -> Stage {
        match self {
            Update::Scanned { .. } => Stage::Scanned,
            Update::Selected { .. } => Stage::Selected,
            Update::Raw { .. } => Stage::Raw,
            Update::Files { .. } => Stage::Files,
            Update::Names { .. } => Stage::Names,
            Update::Tags { .. } => Stage::Tags,
            Update::FileTags { .. } => Stage::FileTags,
            Update::Done { .. } => Stage::Done,
        }
    }

    /// An update of what a scan found.
    pub fn new(scan: Scan) -> (u: Self)
        requires
            scan.wf(),
        ensures
            u.wf(),
            u matches Update::Scanned { attributes, scope } && crate::app::meta::action::states(
                attributes@,
            ) == scan@.attributes && views(scope.files@) == scan@.files
                && crate::app::data::update::api::patterns(scope.directories@)
                == crate::app::data::update::api::with_patterns(scan@.directories),
    {
        let mut scan = scan;
        let scope = query_scanned_file_ids(&mut scan);
        let attributes = scan.take_attributes();
        Update::Scanned { attributes, scope }
    }

    /// The name of the stage, for errors.
    fn name(&self) -> (n: &'static str)
        ensures
            n@ == stage_name(self.stage()),
    {
        match self {
            Update::Scanned { .. } => "scanned",
            Update::Selected { .. } => "selected",
            Update::Raw { .. } => "raw",
            Update::Files { .. } => "files",
            Update::Names { .. } => "names",
            Update::Tags { .. } => "tags",
            Update::FileTags { .. } => "filetags",
            Update::Done { .. } => "done",
        }
    }

    /// Whether all was stored.
    pub fn is_done(&self) -> (b: bool)
        ensures
            b == (self.stage() == Stage::Done),
    {
        match self {
            Update::Done { .. } => true,
            _ => false,
        }
    }

    /// What the next step needs of the store.
    pub fn request<'a>(&'a self) -> (r: Request<'a>)
        ensures
            r.kind() == needed(self.stage()),
            self matches Update::Scanned { scope, .. } ==> r matches Request::Ids(s) && *s
                == *scope,
            self matches Update::Selected { fids, .. } ==> r matches Request::Rows(f) && *f
                == *fids,
            self matches Update::Raw { rows, .. } ==> r matches Request::Columns { fids, tids }
                && fids@ == firsts(rows@) && tids@ == seconds(rows@),
            self matches Update::Files { ins, del, .. } ==> r matches Request::Files {
                delete,
                insert,
            } && *delete == del.files && *insert == ins.files,
            self matches Update::Names { names, .. } ==> r matches Request::Names(n) && *n
                == *names,
            self matches Update::Tags { ins, del, .. } ==> r matches Request::Tags {
                delete,
                insert,
            } && *delete == del.tags && *insert == ins.tags,
            self matches Update::FileTags { ins, del } ==> r matches Request::FileTags {
                insert,
                delete,
            } && *insert == ins.filetags && *delete == del.filetags,
    {
        match self {
            Update::Scanned { scope, .. } => Request::Ids(scope),
            Update::Selected { fids, .. } => Request::Rows(fids),
            Update::Raw { rows, .. } => {
                let (fids, tids) = query_columns(rows);
                Request::Columns { fids, tids }
            },
            Update::Files { ins, del, .. } => Request::Files {
                delete: &del.files,
                insert: &ins.files,
            },
            Update::Names { names, .. } => Request::Names(names),
            Update::Tags { ins, del, .. } => Request::Tags { delete: &del.tags, insert: &ins.tags },
            Update::FileTags { ins, del } => Request::FileTags {
                insert: &ins.filetags,
                delete: &del.filetags,
            },
            Update::Done { .. } => Request::Nothing,
        }
    }

    /// Compares what the store holds with what was scanned, and plans the
    /// files.
    fn compare(attributes: Vec<File>, rows: Vec<Ids>, fcol: Vec<FCol>, tcol: Vec<TCol>) -> (r:
        Result<Update, Error>)
        requires
            all_wf(attributes@),
        ensures
            compared(attributes, rows, fcol, tcol, r),
    {
        let ghost files = files_by_id(file_rows(fcol@));
        let ghost tags = tags_by_id(tag_rows(tcol@));
        let (columns, many_to_many) = match query_associated(rows, fcol, tcol) {
            Ok(pair) => pair,
            Err(e) => {
                return Err(Error::Data(e));
            },
        };
        let maps = Maps::from_cols_and_mtom(&columns, many_to_many);
        proof {
            lemma_indexable(&maps, rows@, nothing());
        }
        let diff = match Diff::from_cols_and_attr(&columns, &attributes, &maps) {
            Ok(diff) => diff,
            Err(e) => {
                return Err(Error::Collections(e));
            },
        };
        let mut ins = Ins::new();
        let mut del = Del::new();
        process_file_diff(&diff, &mut ins, &mut del);
        proof {
            let empty_files = Seq::<file::Insert>::empty();
            let empty_paths = Seq::<String>::empty();
            assert(insert_keys(empty_files) =~= Seq::<FileKey>::empty());
            assert(views(empty_paths) =~= Seq::<Seq<char>>::empty());
            let added = choose|added: Seq<FileKey>|
                #![auto]
                insert_keys(ins.files@) == insert_keys(empty_files) + added
                    && added.no_duplicates() && added.to_set() == diff.fs().files.difference(
                    diff.db().files,
                );
            assert(insert_keys(ins.files@) =~= added);
            let removed = choose|removed: Seq<FileKey>|
                #![auto]
                removed.no_duplicates() && removed.to_set() == diff.db().files.difference(
                    diff.fs().files,
                ) && views(del.files@) == views(empty_paths) + removed.map_values(
                    |k: FileKey| k.0,
                );
            assert(views(del.files@) =~= removed.map_values(|k: FileKey| k.0));
            assert(planned_files(diff, ins.files@, del.files@));
        }
        Ok(Update::Files { diff, maps, ins, del })
    }

    /// Maps the files that were inserted, and asks for the tags.
    fn name_tags(diff: Diff, maps: Maps, ins: Ins, del: Del, rows: Vec<FCol>) -> (r: Update)
        requires
            diff.wf(),
            maps.wf(),
        ensures
            r.wf(),
            r matches Update::Names { diff: d, maps: m, ins: i, del: x, names } && d == diff && i
                == ins && x == del && m.file_map() == files_added(
                maps.file_map(),
                file_rows(rows@),
            ) && m.file_ids() == file_ids_added(maps.file_ids(), file_rows(rows@)) && m.tag_map()
                == maps.tag_map() && m.tag_ids() == maps.tag_ids() && m.assoc() == maps.assoc()
                && views(names@).to_set() == diff.fs().tags.difference(diff.db().tags).union(
                diff.db().tags.difference(diff.fs().tags),
            ),
    {
        let mut maps = maps;
        let ghost first = maps;
        let list = borrow_files(&rows);
        let ghost all = file_rows(rows@);
        let mut i: usize = 0;
        assert(all.take(0) =~= Seq::<FileRow>::empty());
        while i < list.len()
            invariant
                i <= list@.len(),
                maps.wf(),
                all == file_rows(rows@),
                borrowed_files(list@) == all,
                maps.file_map() == files_added(first.file_map(), all.take(i as int)),
                maps.file_ids() == file_ids_added(first.file_ids(), all.take(i as int)),
                maps.tag_map() == first.tag_map(),
                maps.tag_ids() == first.tag_ids(),
                maps.assoc() == first.assoc(),
            decreases list@.len() - i,
        {
            proof {
                let next = all.take(i as int + 1);
                assert(next.drop_last() =~= all.take(i as int));
                assert(next.last() == list@[i as int]@);
            }
            maps.add_file(list[i].replica());
            i += 1;
        }
        assert(all.take(i as int) =~= all);
        let names = deduplicate_tags(&diff);
        Update::Names { diff, maps, ins, del, names }
    }

    /// Plans the tags, given those that the store holds, and maps them.
    fn plan_tags(diff: Diff, maps: Maps, ins: Ins, del: Del, known: Vec<(String, Tid)>) -> (r:
        Update)
        requires
            diff.wf(),
            maps.wf(),
        ensures
            r.wf(),
            r matches Update::Tags { diff: d, maps: m, ins: i, del: x } && d == diff && i.files
                == ins.files && i.filetags == ins.filetags && x.files == del.files && x.filetags
                == del.filetags && m.tag_map() == tags_added(maps.tag_map(), known_rows(known@))
                && m.tag_ids() == tag_ids_added(maps.tag_ids(), known_rows(known@))
                && m.file_map() == maps.file_map() && m.file_ids() == maps.file_ids()
                && m.assoc() == maps.assoc() && (ins.tags@.len() == 0 && del.tags@.len() == 0
                ==> planned_tags(diff, known_ids(known@), i.tags@, x.tags@)),
    {
        let mut maps = maps;
        let mut ins = ins;
        let mut del = del;
        let ghost first = maps;
        let ghost ins_before = ins;
        let ghost del_before = del;
        let ghost all = known_rows(known@);
        let mut table: VecMap<String, Tid> = VecMap::new();
        let mut i: usize = 0;
        assert(all.take(0) =~= Seq::<TagRow>::empty());
        assert(table@ =~= Map::<Seq<char>, i64>::empty());
        while i < known.len()
            invariant
                i <= known@.len(),
                maps.wf(),
                table.wf(),
                all == known_rows(known@),
                table@ == tag_ids_added(Map::<Seq<char>, i64>::empty(), all.take(i as int)),
                maps.tag_map() == tags_added(first.tag_map(), all.take(i as int)),
                maps.tag_ids() == tag_ids_added(first.tag_ids(), all.take(i as int)),
                maps.file_map() == first.file_map(),
                maps.file_ids() == first.file_ids(),
                maps.assoc() == first.assoc(),
            decreases known@.len() - i,
        {
            let name = known[i].0.clone();
            let id = known[i].1;
            proof {
                let next = all.take(i as int + 1);
                assert(next.drop_last() =~= all.take(i as int));
                assert(next.last() == TagRow { id: id as int, name: name@ });
            }
            let ghost before = table@;
            table.insert(name.clone(), id);
            assert(table@ =~= before.insert(name@, id));
            maps.add_tag(tag::Borrow { id, name });
            i += 1;
        }
        assert(all.take(i as int) =~= all);
        process_tag_diff(&diff, &mut ins, &mut del, &table);
        proof {
            if ins_before.tags@.len() == 0 && del_before.tags@.len() == 0 {
                assert(insert_names(ins_before.tags@) =~= Seq::<Seq<char>>::empty());
                assert(views(del_before.tags@) =~= Seq::<Seq<char>>::empty());
                let added = choose|added: Seq<Seq<char>>|
                    #![auto]
                    insert_names(ins.tags@) == insert_names(ins_before.tags@) + added
                        && added.no_duplicates() && added.to_set() == diff.fs().tags.difference(
                        diff.db().tags,
                    ).difference(table@.dom());
                assert(insert_names(ins.tags@) =~= added);
                let removed = choose|removed: Seq<Seq<char>>|
                    #![auto]
                    views(del.tags@) == views(del_before.tags@) + removed
                        && removed.no_duplicates() && removed.to_set()
                        == diff.db().tags.difference(diff.fs().tags).difference(table@.dom());
                assert(views(del.tags@) =~= removed);
                assert(planned_tags(diff, known_ids(known@), ins.tags@, del.tags@));
            }
        }
        Update::Tags { diff, maps, ins, del }
    }

    /// Maps the tags that were inserted, and plans the associations.
    fn plan_pairs(diff: Diff, maps: Maps, ins: Ins, del: Del, rows: Vec<TCol>) -> (r: Result<
        Update,
        Error,
    >)
        requires
            diff.wf(),
            maps.wf(),
        ensures
            match r {
                Ok(next) => next matches Update::FileTags { ins: i, del: x } && i.files
                    == ins.files && i.tags == ins.tags && x.files == del.files && x.tags
                    == del.tags && (ins.filetags@.len() == 0 && del.filetags@.len() == 0
                    ==> exists|m: Maps|
                    #![auto]
                    m.wf() && m.tag_map() == tags_added(maps.tag_map(), tag_rows(rows@))
                        && m.tag_ids() == tag_ids_added(maps.tag_ids(), tag_rows(rows@))
                        && m.file_map() == maps.file_map() && m.file_ids() == maps.file_ids()
                        && planned_pairs(diff, &m, i.filetags@, x.filetags@)),
                Err(e) => e@ == Fault::Collections(Seq::<char>::empty()),
            },
            r is Ok <==> plannable(diff, maps, tag_rows(rows@)),
    {
        let mut maps = maps;
        let mut ins = ins;
        let mut del = del;
        let ghost first = maps;
        let ghost ins_before = ins;
        let ghost del_before = del;
        let list = borrow_tags(&rows);
        let ghost all = tag_rows(rows@);
        let mut i: usize = 0;
        assert(all.take(0) =~= Seq::<TagRow>::empty());
        while i < list.len()
            invariant
                i <= list@.len(),
                maps.wf(),
                all == tag_rows(rows@),
                borrowed_tags(list@) == all,
                maps.tag_map() == tags_added(first.tag_map(), all.take(i as int)),
                maps.tag_ids() == tag_ids_added(first.tag_ids(), all.take(i as int)),
                maps.file_map() == first.file_map(),
                maps.file_ids() == first.file_ids(),
            decreases list@.len() - i,
        {
            proof {
                let next = all.take(i as int + 1);
                assert(next.drop_last() =~= all.take(i as int));
                assert(next.last() == list@[i as int]@);
            }
            maps.add_tag(list[i].replica());
            i += 1;
        }
        assert(all.take(i as int) =~= all);
        proof {
            let gained = diff.fs().pairs.difference(diff.db().pairs);
            let lost = diff.db().pairs.difference(diff.fs().pairs);
            assert(has_pairs(&maps, gained) == pairs_known(
                first.file_ids(),
                tag_ids_added(first.tag_ids(), all),
                gained,
            ));
            assert(has_pairs(&maps, lost) == pairs_known(
                first.file_ids(),
                tag_ids_added(first.tag_ids(), all),
                lost,
            ));
        }
        match process_filetag_diff(&diff, &mut ins, &mut del, &maps) {
            Ok(()) => {
                proof {
                    if ins_before.filetags@.len() == 0 && del_before.filetags@.len() == 0 {
                        assert(pair_ids(ins_before.filetags@) =~= Seq::<Ids>::empty());
                        let (added, removed, a, b) = choose|
                            added: Seq<PairKey>,
                            removed: Seq<PairKey>,
                            a: Seq<Ids>,
                            b: Seq<Ids>,
                        |
                            #![auto]
                            lists_ids(
                                &maps,
                                added,
                                diff.fs().pairs.difference(diff.db().pairs),
                                a,
                            ) && lists_ids(
                                &maps,
                                removed,
                                diff.db().pairs.difference(diff.fs().pairs),
                                b,
                            ) && pair_ids(ins.filetags@) == pair_ids(ins_before.filetags@) + a
                                && del.filetags@ == del_before.filetags@ + b;
                        assert(pair_ids(ins.filetags@) =~= a);
                        assert(del.filetags@ =~= b);
                        assert(planned_pairs(diff, &maps, ins.filetags@, del.filetags@));
                    }
                }
                Ok(Update::FileTags { ins, del })
            },
            Err(e) => Err(Error::Collections(e)),
        }
    }

    /// Takes one step with what the store answered. What came has to be of
    /// the kind that the step needs. An update that is done stays as it is.
    pub fn step(self, event: Event) -> (r: Result<Update, Error>)
        requires
            self.wf(),
        ensures
            event.kind() != needed(self.stage()) ==> (r matches Err(e) && e@ == wrong_state(
                stage_name(self.stage()),
                "update"@,
            )),
            r matches Ok(next) ==> event.kind() == needed(self.stage()) && next.wf()
                && next.stage() == following(self.stage()),
            stepped(self, event, r),
    {
        let name = self.name();
        let wrong = Error::Data(
            data::Error::WrongState { state: name.to_owned(), operation: "update".to_owned() },
        );
        match self {
            Update::Scanned { attributes, scope } => match event {
                Event::Ids(fids) => Ok(Update::Selected { attributes, fids }),
                _ => Err(wrong),
            },
            Update::Selected { attributes, fids } => match event {
                Event::Rows(rows) => Ok(Update::Raw { attributes, rows }),
                _ => Err(wrong),
            },
            Update::Raw { attributes, rows } => match event {
                Event::Columns(fcol, tcol) => Self::compare(attributes, rows, fcol, tcol),
                _ => Err(wrong),
            },
            Update::Files { diff, maps, ins, del } => match event {
                Event::Files(rows) => Ok(Self::name_tags(diff, maps, ins, del, rows)),
                _ => Err(wrong),
            },
            Update::Names { diff, maps, ins, del, names } => match event {
                Event::Names(known) => Ok(Self::plan_tags(diff, maps, ins, del, known)),
                _ => Err(wrong),
            },
            Update::Tags { diff, maps, ins, del } => match event {
                Event::Tags(rows) => Self::plan_pairs(diff, maps, ins, del, rows),
                _ => Err(wrong),
            },
            Update::FileTags { ins, del } => match event {
                Event::Stored => Ok(Update::Done { ins, del }),
                _ => Err(wrong),
            },
            Update::Done { ins, del } => match event {
                Event::Nothing => Ok(Update::Done { ins, del }),
                _ => Err(wrong),
            },
        }
    }

    /// What was inserted and deleted, once all was stored.
    pub fn summary(&self) -> (r: Option<(&Ins, &Del)>)
        ensures
            match self {
                Update::Done { ins, del } => r == Some((ins, del)),
                _ => r is None,
            },
    {
        match self {
            Update::Done { ins, del } => Some((ins, del)),
            _ => None,
        }
    }
}

/// What comparing the two sides gives. The rows have to be as many as the
/// files and the tags of the associations, and hold the file and the tag of
/// each association; then the index is put by key, the file system is what
/// was scanned, and the files are planned.
pub open spec fn compared(
    attributes: Vec<File>,
    rows: Vec<Ids>,
    fcol: Vec<FCol>,
    tcol: Vec<TCol>,
    r: Result<Update, Error>,
) -> bool {
    if !(fcol@.len() == firsts(rows@).len() && tcol@.len() == seconds(rows@).len()) {
        r matches Err(e) && e@ == Fault::Data(inconsistent())
    } else if !indexable(files_by_id(file_rows(fcol@)), tags_by_id(tag_rows(tcol@)), rows@) {
        r matches Err(e) && e@ == Fault::Collections(Seq::<char>::empty())
    } else {
        r matches Ok(Update::Files { diff, maps, ins, del }) && diff.wf() && maps.wf()
            && maps.file_map() == files_by_id(file_rows(fcol@)) && maps.tag_map() == tags_by_id(
            tag_rows(tcol@),
        ) && indexed(&maps, rows@, nothing()) == Some(diff.db()) && scanned(
            diff.fs(),
            attributes@,
        ) && planned_files(diff, ins.files@, del.files@) && ins.tags@.len() == 0
            && ins.filetags@.len() == 0 && del.tags@.len() == 0 && del.filetags@.len() == 0
    }
}

/// What a step gives, stage by stage, for what came of the right kind.
pub open spec fn stepped(before: Update, event: Event, r: Result<Update, Error>) -> bool {
    match (before, event) {
        (Update::Scanned { attributes, scope }, Event::Ids(fids)) => r matches Ok(
            Update::Selected { attributes: a, fids: f },
        ) && a == attributes && f == fids,
        (Update::Selected { attributes, fids }, Event::Rows(rows)) => r matches Ok(
            Update::Raw { attributes: a, rows: x },
        ) && a == attributes && x == rows,
        (Update::Raw { attributes, rows }, Event::Columns(fcol, tcol)) => compared(
            attributes,
            rows,
            fcol,
            tcol,
            r,
        ),
        (Update::Files { diff, maps, ins, del }, Event::Files(rows)) => r matches Ok(
            Update::Names { diff: d, maps: m, ins: i, del: x, names },
        ) && d == diff && i == ins && x == del && m.file_map() == files_added(
            maps.file_map(),
            file_rows(rows@),
        ) && m.file_ids() == file_ids_added(maps.file_ids(), file_rows(rows@)) && m.tag_map()
            == maps.tag_map() && m.tag_ids() == maps.tag_ids() && m.assoc() == maps.assoc()
            && views(names@).to_set() == diff.fs().tags.difference(diff.db().tags).union(
            diff.db().tags.difference(diff.fs().tags),
        ),
        (Update::Names { diff, maps, ins, del, names }, Event::Names(known)) => r matches Ok(
            Update::Tags { diff: d, maps: m, ins: i, del: x },
        ) && d == diff && i.files == ins.files && i.filetags == ins.filetags && x.files
            == del.files && x.filetags == del.filetags && m.tag_map() == tags_added(
            maps.tag_map(),
            known_rows(known@),
        ) && m.tag_ids() == tag_ids_added(maps.tag_ids(), known_rows(known@)) && m.file_map()
            == maps.file_map() && m.file_ids() == maps.file_ids() && m.assoc() == maps.assoc()
            && (ins.tags@.len() == 0 && del.tags@.len() == 0 ==> planned_tags(
            diff,
            known_ids(known@),
            i.tags@,
            x.tags@,
        )),
        (Update::Tags { diff, maps, ins, del }, Event::Tags(rows)) => (r is Ok) == plannable(
            diff,
            maps,
            tag_rows(rows@),
        ) && match r {
            Ok(next) => next matches Update::FileTags { ins: i, del: x } && i.files == ins.files
                && i.tags == ins.tags && x.files == del.files && x.tags == del.tags && (
            ins.filetags@.len() == 0 && del.filetags@.len() == 0 ==> exists|m: Maps|
                #![auto]
                m.wf() && m.tag_map() == tags_added(maps.tag_map(), tag_rows(rows@))
                    && m.tag_ids() == tag_ids_added(maps.tag_ids(), tag_rows(rows@))
                    && m.file_map() == maps.file_map() && m.file_ids() == maps.file_ids()
                    && planned_pairs(diff, &m, i.filetags@, x.filetags@)),
            Err(e) => e@ == Fault::Collections(Seq::<char>::empty()),
        },
        (Update::FileTags { ins, del }, Event::Stored) => r matches Ok(
            Update::Done { ins: i, del: x },
        ) && i == ins && x == del,
        (Update::Done { ins, del }, Event::Nothing) => r matches Ok(
            Update::Done { ins: i, del: x },
        ) && i == ins && x == del,
        _ => r is Err,
    }
}

} // verus!
