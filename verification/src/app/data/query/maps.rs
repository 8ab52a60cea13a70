//! The rows of a result, and the maps that index them.
use crate::app::attr::api::valid_tag;
use crate::app::attr::error as attr;
use crate::app::attr::tag::Tag;
use crate::expression::comparison::Parameters;
use crate::model::file::{self, FileExt, FileRow};
use crate::model::tag::{self, TagExt, TagRow};
use crate::model::{FCol, Fid, Ids, Kind, TCol, Tid, Uid};
use crate::util::collections::{Error, HasId, ManyToMany, OneToOneFat};
use crate::util::error as any;
use crate::util::table::{shrink, Key, VecMap, VecSet};
use vstd::prelude::*;
use vstd::utf8::encode_utf8;

verus! {

/// Files by id and tags by id.
pub type ManyToManyIds = ManyToMany<Fid, Tid>;

/// Tags by id, and ids by name.
pub type OneToOneTid = OneToOneFat<Uid, Uid, tag::Borrow, tag::Ident>;

/// Files by id, and ids by path and kind.
pub type OneToOneFid = OneToOneFat<Uid, Uid, file::Borrow, file::Ident>;

impl HasId<tag::Ident> for tag::Borrow {
    open spec fn id_spec(&self) -> Seq<char> {
        self@.name
    }

    fn as_id(&self) -> (id: tag::Ident) {
        self.ident()
    }
}

impl HasId<file::Ident> for file::Borrow {
    open spec fn id_spec(&self) -> (Seq<char>, int) {
        (self@.path, self@.kind)
    }

    fn as_id(&self) -> (id: file::Ident) {
        self.ident()
    }
}

/// The name of the variable that holds the number of tags of a file.
pub const TAGS_LEN: &'static str = "tags.len";

/// The name of the variable that holds the length of the path of a file.
pub const PATH_LEN: &'static str = "path.len";

/// The name of the variable that holds the id of a file.
pub const FILE_ID: &'static str = "file.id";

/// The characters of `tags.len`.
pub open spec fn var_tags_len() -> Seq<char> {
    seq!['t', 'a', 'g', 's', '.', 'l', 'e', 'n']
}

/// The characters of `path.len`.
pub open spec fn var_path_len() -> Seq<char> {
    seq!['p', 'a', 't', 'h', '.', 'l', 'e', 'n']
}

/// The characters of `file.id`.
pub open spec fn var_file_id() -> Seq<char> {
    seq!['f', 'i', 'l', 'e', '.', 'i', 'd']
}

/// The rows of a list of files.
pub open spec fn file_rows(files: Seq<FCol>) -> Seq<FileRow> {
    files.map_values(|f: FCol| f.row())
}

/// The rows of a list of tags.
pub open spec fn tag_rows(tags: Seq<TCol>) -> Seq<TagRow> {
    tags.map_values(|t: TCol| t.row())
}

/// The rows of a list of files that was handed out.
pub open spec fn borrowed_files(files: Seq<file::Borrow>) -> Seq<FileRow> {
    files.map_values(|f: file::Borrow| f@)
}

/// The rows of a list of tags that was handed out.
pub open spec fn borrowed_tags(tags: Seq<tag::Borrow>) -> Seq<TagRow> {
    tags.map_values(|t: tag::Borrow| t@)
}

/// The files of a list of rows, each as a value of its own.
pub fn borrow_files(rows: &Vec<FCol>) -> (files: Vec<file::Borrow>)
    ensures
        borrowed_files(files@) == file_rows(rows@),
{
    let mut files: Vec<file::Borrow> = Vec::new();
    let mut i: usize = 0;
    while i < rows.len()
        invariant
            i <= rows@.len(),
            borrowed_files(files@) == file_rows(rows@).take(i as int),
        decreases rows@.len() - i,
    {
        let b = rows[i].borrow();
        proof {
            assert(borrowed_files(files@.push(b)) =~= borrowed_files(files@).push(b@));
            assert(file_rows(rows@).take(i as int + 1) =~= file_rows(rows@).take(i as int).push(
                rows@[i as int].row(),
            ));
        }
        files.push(b);
        i += 1;
    }
    assert(file_rows(rows@).take(i as int) =~= file_rows(rows@));
    files
}

/// The tags of a list of rows, each as a value of its own.
pub fn borrow_tags(rows: &Vec<TCol>) -> (tags: Vec<tag::Borrow>)
    ensures
        borrowed_tags(tags@) == tag_rows(rows@),
{
    let mut tags: Vec<tag::Borrow> = Vec::new();
    let mut i: usize = 0;
    while i < rows.len()
        invariant
            i <= rows@.len(),
            borrowed_tags(tags@) == tag_rows(rows@).take(i as int),
        decreases rows@.len() - i,
    {
        let b = rows[i].borrow();
        proof {
            assert(borrowed_tags(tags@.push(b)) =~= borrowed_tags(tags@).push(b@));
            assert(tag_rows(rows@).take(i as int + 1) =~= tag_rows(rows@).take(i as int).push(
                rows@[i as int].row(),
            ));
        }
        tags.push(b);
        i += 1;
    }
    assert(tag_rows(rows@).take(i as int) =~= tag_rows(rows@));
    tags
}

/// What has the three columns of a result.
pub trait Columnar {
    /// The rows of the files.
    spec fn file_col(&self) -> Seq<FileRow>;

    /// The rows of the tags.
    spec fn tag_col(&self) -> Seq<TagRow>;

    /// The associations.
    spec fn pair_col(&self) -> Seq<Ids>;

    /// The files.
    fn files(&self) -> (f: &Vec<FCol>)
        ensures
            file_rows(f@) == self.file_col(),
    ;

    /// The tags.
    fn tags(&self) -> (t: &Vec<TCol>)
        ensures
            tag_rows(t@) == self.tag_col(),
    ;

    /// The associations.
    fn filetags(&self) -> (m: &Vec<Ids>)
        ensures
            m@ == self.pair_col(),
    ;

    /// The files, each as a value of its own.
    fn file_iter(&self) -> (files: Vec<file::Borrow>)
        ensures
            borrowed_files(files@) == self.file_col(),
    {
        borrow_files(self.files())
    }

    /// The tags, each as a value of its own.
    fn tag_iter(&self) -> (tags: Vec<tag::Borrow>)
        ensures
            borrowed_tags(tags@) == self.tag_col(),
    {
        borrow_tags(self.tags())
    }

    /// The associations, each as a value of its own.
    fn filetag_iter(&self) -> (pairs: Vec<(Fid, Tid)>)
        ensures
            pairs@ == self.pair_col(),
    {
        let rows = self.filetags();
        let mut pairs: Vec<(Fid, Tid)> = Vec::new();
        let mut i: usize = 0;
        while i < rows.len()
            invariant
                i <= rows@.len(),
                pairs@ == rows@.take(i as int),
            decreases rows@.len() - i,
        {
            pairs.push((rows[i].0, rows[i].1));
            assert(pairs@ =~= rows@.take(i as int + 1));
            i += 1;
        }
        assert(rows@.take(i as int) =~= rows@);
        pairs
    }

    /// The number of files.
    fn file_count(&self) -> (n: usize)
        ensures
            n == self.file_col().len(),
    {
        self.files().len()
    }

    /// The number of tags.
    fn tag_count(&self) -> (n: usize)
        ensures
            n == self.tag_col().len(),
    {
        self.tags().len()
    }
}

/// The rows that a query returned.
#[derive(Debug)]
pub struct Columns {
    fcol: Vec<FCol>,
    tcol: Vec<TCol>,
    map: Vec<Ids>,
}

impl Columns {
    /// The three columns as one result.
    pub fn from_cols(fcol: Vec<FCol>, tcol: Vec<TCol>, map: Vec<Ids>) -> (c: Self)
        ensures
            c.file_col() == file_rows(fcol@),
            c.tag_col() == tag_rows(tcol@),
            c.pair_col() == map@,
    {
        Columns { fcol, tcol, map }
    }

    /// Gives back the room that the columns do not use.
    pub fn shrink_to_fit(&mut self)
        ensures
            final(self).file_col() == old(self).file_col(),
            final(self).tag_col() == old(self).tag_col(),
            final(self).pair_col() == old(self).pair_col(),
    {
        shrink(&mut self.fcol);
        shrink(&mut self.tcol);
        shrink(&mut self.map);
    }
}

impl Columnar for Columns {
    closed spec fn file_col(&self) -> Seq<FileRow> {
        file_rows(self.fcol@)
    }

    closed spec fn tag_col(&self) -> Seq<TagRow> {
        tag_rows(self.tcol@)
    }

    closed spec fn pair_col(&self) -> Seq<Ids> {
        self.map@
    }

    fn files(&self) -> (f: &Vec<FCol>) {
        &self.fcol
    }

    fn tags(&self) -> (t: &Vec<TCol>) {
        &self.tcol
    }

    fn filetags(&self) -> (m: &Vec<Ids>) {
        &self.map
    }
}

/// The files of a list of rows, by id; a later row replaces an earlier one
/// with the same id.
pub open spec fn files_by_id(rows: Seq<FileRow>) -> Map<int, FileRow>
    decreases rows.len(),
{
    if rows.len() == 0 {
        Map::<int, FileRow>::empty()
    } else {
        files_by_id(rows.drop_last()).insert(rows.last().id, rows.last())
    }
}

/// The tags of a list of rows, by id; a later row replaces an earlier one
/// with the same id.
pub open spec fn tags_by_id(rows: Seq<TagRow>) -> Map<int, TagRow>
    decreases rows.len(),
{
    if rows.len() == 0 {
        Map::<int, TagRow>::empty()
    } else {
        tags_by_id(rows.drop_last()).insert(rows.last().id, rows.last())
    }
}

/// A file as the tests of a filter see it.
pub struct Subject {
    /// The maps that the file is in.
    pub maps: Maps,
    /// The id of the file.
    pub id: i64,
    /// The path of the file.
    pub path: Seq<char>,
    /// The ids of the tags of the file, in the order in which they came.
    pub tids: Seq<i64>,
}

/// The maps that index a result: files by id, tags by id, and which file has
/// which tag.
#[derive(Debug)]
pub struct Maps {
    fids: OneToOneFid,
    tids: OneToOneTid,
    mtom: ManyToManyIds,
}

impl Maps {
    /// The three maps are well formed, and each row stands under its own id.
    pub closed spec fn wf(&self) -> bool {
        &&& self.fids.wf()
        &&& self.tids.wf()
        &&& self.mtom.wf()
        &&& forall|id: i64|
            self.fids.forth().contains_key(id) ==> (#[trigger] self.fids.forth()[id]).id == id
        &&& forall|id: i64|
            self.tids.forth().contains_key(id) ==> (#[trigger] self.tids.forth()[id]).id == id
    }

    /// The files, by id.
    pub closed spec fn file_map(&self) -> Map<int, FileRow> {
        Map::new(
            |id: int| i64::MIN <= id <= i64::MAX && self.fids.forth().contains_key(id as i64),
            |id: int| self.fids.forth()[id as i64]@,
        )
    }

    /// The tags, by id.
    pub closed spec fn tag_map(&self) -> Map<int, TagRow> {
        Map::new(
            |id: int| i64::MIN <= id <= i64::MAX && self.tids.forth().contains_key(id as i64),
            |id: int| self.tids.forth()[id as i64]@,
        )
    }

    /// The ids of the files, by path and kind.
    pub closed spec fn file_ids(&self) -> Map<(Seq<char>, int), i64> {
        self.fids.back()
    }

    /// The ids of the tags, by name.
    pub closed spec fn tag_ids(&self) -> Map<Seq<char>, i64> {
        self.tids.back()
    }

    /// The ids of the tags of each file that has some.
    pub closed spec fn tags_of(&self) -> Map<i64, Set<i64>> {
        self.mtom.lefts()
    }

    /// The ids of the files of each tag that has some.
    pub closed spec fn files_of(&self) -> Map<i64, Set<i64>> {
        self.mtom.rights()
    }

    /// The associations, as a value of their own.
    pub closed spec fn assoc(&self) -> ManyToManyIds {
        self.mtom
    }

    /// The ids of the files, in the order in which they came.
    pub closed spec fn file_order(&self) -> Seq<i64> {
        self.fids.order()
    }

    /// The ids of the tags, in the order in which they came.
    pub closed spec fn tag_order(&self) -> Seq<i64> {
        self.tids.order()
    }

    /// A file of the maps as the tests of a filter see it.
    pub closed spec fn subject(&self, id: i64) -> Subject {
        Subject {
            maps: *self,
            id,
            path: self.fids.forth()[id]@.path,
            tids: self.mtom.rs_order(id),
        }
    }

    /// The first of the ids `order` whose file has the path `path`.
    pub open spec fn path_id(&self, order: Seq<i64>, path: Seq<char>) -> Option<i64>
        decreases order.len(),
    {
        if order.len() == 0 {
            None
        } else if self.file_map().contains_key(order[0] as int) && self.file_map()[order[0] as int].path
            == path {
            Some(order[0])
        } else {
            self.path_id(order.drop_first(), path)
        }
    }

    /// What `path_id` finds is one of the ids that it was given.
    pub proof fn lemma_path_id(&self, order: Seq<i64>, path: Seq<char>)
        ensures
            self.path_id(order, path) matches Some(id) ==> order.contains(id)
                && self.file_map().contains_key(id as int) && self.file_map()[id as int].path
                == path,
        decreases order.len(),
    {
        if order.len() > 0 {
            if self.file_map().contains_key(order[0] as int) && self.file_map()[order[0] as int].path
                == path {
                assert(order[0] == order[0]);
            } else {
                self.lemma_path_id(order.drop_first(), path);
                if let Some(id) = self.path_id(order.drop_first(), path) {
                    let k = choose|k: int|
                        0 <= k < order.drop_first().len() && order.drop_first()[k] == id;
                    assert(order[k + 1] == id);
                }
            }
        }
    }

    /// The id of the first file with a path, in the order in which the
    /// files came.
    pub fn by_path(&self, path: &str) -> (r: Option<Fid>)
        requires
            self.wf(),
        ensures
            r == self.path_id(self.file_order(), path@),
    {
        let n = self.fids.len();
        let mut i: usize = 0;
        let ghost order = self.fids.order();
        assert(order.skip(0) =~= order);
        proof {
            self.fids.lemma_order();
        }
        while i < n
            invariant
                i <= n,
                n == order.len(),
                order == self.fids.order(),
                self.wf(),
                self.path_id(order, path@) == self.path_id(order.skip(i as int), path@),
            decreases n - i,
        {
            let id = *self.fids.uid_at(i);
            proof {
                assert(order.skip(i as int)[0] == id);
                assert(order.skip(i as int).drop_first() =~= order.skip(i + 1));
                self.fids.lemma_order();
                assert(order.contains(id));
            }
            match self.fids.by_uid(&id) {
                Ok(file) => {
                    if crate::util::string::same_text(file.path.as_str(), path) {
                        return Some(id);
                    }
                },
                Err(_) => {},
            }
            i += 1;
        }
        None
    }

    /// Whether a file can be viewed: it has a row and at least one tag.
    pub open spec fn has_file(&self, id: i64) -> bool {
        &&& self.file_map().contains_key(id as int)
        &&& self.tags_of().contains_key(id)
        &&& self.tags_of()[id] != Set::<i64>::empty()
    }

    /// Whether every file of a list can be viewed.
    pub open spec fn has_files(&self, ids: Seq<i64>) -> bool {
        forall|i: int| 0 <= i < ids.len() ==> self.has_file(#[trigger] ids[i])
    }

    /// Whether every tag of a list can be viewed.
    pub open spec fn has_tags(&self, ids: Seq<i64>) -> bool {
        forall|i: int| 0 <= i < ids.len() ==> self.has_tag(#[trigger] ids[i])
    }

    /// Whether a tag can be viewed: it has a row and a set of files.
    pub open spec fn has_tag(&self, id: i64) -> bool {
        self.tag_map().contains_key(id as int) && self.files_of().contains_key(id)
    }

    /// The orders list the ids of the rows, each once.
    pub proof fn lemma_orders(&self)
        requires
            self.wf(),
        ensures
            self.file_order().no_duplicates(),
            self.tag_order().no_duplicates(),
            forall|id: i64| self.file_map().contains_key(id as int) <==> self.file_order().contains(id),
            forall|id: i64| self.tag_map().contains_key(id as int) <==> self.tag_order().contains(id),
    {
        self.fids.lemma_order();
        self.tids.lemma_order();
    }

    /// Empty maps.
    pub fn new() -> (m: Self)
        ensures
            m.wf(),
            m.file_map() == Map::<int, FileRow>::empty(),
            m.tag_map() == Map::<int, TagRow>::empty(),
            m.tags_of() == Map::<i64, Set<i64>>::empty(),
            m.files_of() == Map::<i64, Set<i64>>::empty(),
    {
        let m = Maps { fids: OneToOneFid::new(), tids: OneToOneTid::new(), mtom: ManyToManyIds::new() };
        assert(m.file_map() =~= Map::<int, FileRow>::empty());
        assert(m.tag_map() =~= Map::<int, TagRow>::empty());
        m
    }

    /// The maps of the rows of `cols`, with `mtom` as the associations.
    pub fn from_cols_and_mtom(cols: &Columns, mtom: ManyToManyIds) -> (m: Self)
        requires
            mtom.wf(),
        ensures
            m.wf(),
            m.file_map() == files_by_id(cols.file_col()),
            m.tag_map() == tags_by_id(cols.tag_col()),
            m.tags_of() == mtom.lefts(),
            m.files_of() == mtom.rights(),
    {
        let mut this = Maps {
            fids: OneToOneFid::with_capacity(cols.tcol.len()),
            tids: OneToOneTid::with_capacity(cols.fcol.len()),
            mtom,
        };
        let files = cols.file_iter();
        let tags = cols.tag_iter();
        assert(this.file_map() =~= Map::<int, FileRow>::empty());
        assert(this.tag_map() =~= Map::<int, TagRow>::empty());
        let mut i: usize = 0;
        assert(borrowed_files(files@).take(0) =~= Seq::<FileRow>::empty());
        while i < files.len()
            invariant
                i <= files@.len(),
                this.wf(),
                this.mtom == mtom,
                this.tag_map() == Map::<int, TagRow>::empty(),
                this.file_map() == files_by_id(borrowed_files(files@).take(i as int)),
            decreases files@.len() - i,
        {
            let f = files[i].replica();
            proof {
                let rows = borrowed_files(files@);
                assert(rows.take(i as int + 1).drop_last() =~= rows.take(i as int));
                assert(rows.take(i as int + 1).last() == f@);
            }
            this.add_file(f);
            i += 1;
        }
        assert(borrowed_files(files@).take(i as int) =~= borrowed_files(files@));
        let mut j: usize = 0;
        assert(borrowed_tags(tags@).take(0) =~= Seq::<TagRow>::empty());
        while j < tags.len()
            invariant
                j <= tags@.len(),
                this.wf(),
                this.mtom == mtom,
                this.file_map() == files_by_id(cols.file_col()),
                this.tag_map() == tags_by_id(borrowed_tags(tags@).take(j as int)),
            decreases tags@.len() - j,
        {
            let t = tags[j].replica();
            proof {
                let rows = borrowed_tags(tags@);
                assert(rows.take(j as int + 1).drop_last() =~= rows.take(j as int));
                assert(rows.take(j as int + 1).last() == t@);
            }
            this.add_tag(t);
            j += 1;
        }
        assert(borrowed_tags(tags@).take(j as int) =~= borrowed_tags(tags@));
        this.shrink_to_fit();
        this
    }

    /// Gives back the room that the maps do not use.
    pub fn shrink_to_fit(&mut self)
        ensures
            final(self).wf() == old(self).wf(),
            final(self).file_map() == old(self).file_map(),
            final(self).tag_map() == old(self).tag_map(),
            final(self).file_ids() == old(self).file_ids(),
            final(self).tag_ids() == old(self).tag_ids(),
            final(self).tags_of() == old(self).tags_of(),
            final(self).files_of() == old(self).files_of(),
            final(self).file_order() == old(self).file_order(),
            final(self).tag_order() == old(self).tag_order(),
    {
        self.fids.shrink_to_fit();
        self.tids.shrink_to_fit();
        self.mtom.shrink_to_fit();
        assert(self.file_map() =~= old(self).file_map());
        assert(self.tag_map() =~= old(self).tag_map());
    }

    /// The files by id, and the ids by path and kind.
    pub fn fids(&self) -> (m: &OneToOneFid)
        ensures
            m.wf() == self.wf_fids(),
            m.order() == self.file_order(),
            m.back() == self.file_ids(),
            forall|id: i64|
                m.forth().contains_key(id) <==> self.file_map().contains_key(id as int),
            forall|id: i64|
                m.forth().contains_key(id) ==> (#[trigger] m.forth()[id])@ == self.file_map()[id as int],
    {
        &self.fids
    }

    /// Whether the map of the files is well formed.
    pub closed spec fn wf_fids(&self) -> bool {
        self.fids.wf()
    }

    /// Whether the map of the tags is well formed.
    pub closed spec fn wf_tids(&self) -> bool {
        self.tids.wf()
    }

    /// The parts of well-formed maps are well formed.
    pub proof fn lemma_wf(&self)
        requires
            self.wf(),
        ensures
            self.wf_fids(),
            self.wf_tids(),
    {
    }

    /// The tags by id, and the ids by name.
    pub fn tids(&self) -> (m: &OneToOneTid)
        ensures
            m.wf() == self.wf_tids(),
            m.order() == self.tag_order(),
            m.back() == self.tag_ids(),
            forall|id: i64| m.forth().contains_key(id) <==> self.tag_map().contains_key(id as int),
            forall|id: i64|
                m.forth().contains_key(id) ==> (#[trigger] m.forth()[id])@ == self.tag_map()[id as int],
    {
        &self.tids
    }

    /// Which file has which tag.
    pub fn mtom(&self) -> (m: &ManyToManyIds)
        ensures
            self.wf() ==> m.wf(),
            m.lefts() == self.tags_of(),
            m.rights() == self.files_of(),
    {
        &self.mtom
    }

    /// Adds a file, in place of the one that had its id.
    pub fn add_file(&mut self, f: file::Borrow)
        requires
            old(self).wf(),
        ensures
            final(self).wf(),
            final(self).file_map() == old(self).file_map().insert(f.id as int, f@),
            final(self).file_ids() == old(self).file_ids().insert((f@.path, f@.kind), f.id),
            final(self).tag_map() == old(self).tag_map(),
            final(self).tag_ids() == old(self).tag_ids(),
            final(self).tags_of() == old(self).tags_of(),
            final(self).files_of() == old(self).files_of(),
            final(self).assoc() == old(self).assoc(),
    {
        self.fids.map(f.id, f);
        assert(self.file_map() =~= old(self).file_map().insert(f.id as int, f@));
    }

    /// Adds a tag, in place of the one that had its id.
    pub fn add_tag(&mut self, t: tag::Borrow)
        requires
            old(self).wf(),
        ensures
            final(self).wf(),
            final(self).tag_map() == old(self).tag_map().insert(t.id as int, t@),
            final(self).tag_ids() == old(self).tag_ids().insert(t@.name, t.id),
            final(self).file_map() == old(self).file_map(),
            final(self).file_ids() == old(self).file_ids(),
            final(self).tags_of() == old(self).tags_of(),
            final(self).files_of() == old(self).files_of(),
            final(self).assoc() == old(self).assoc(),
    {
        self.tids.map(t.id, t);
        assert(self.tag_map() =~= old(self).tag_map().insert(t.id as int, t@));
    }

    /// Adds an association of a file and a tag, by their ids.
    pub fn add_ids(&mut self, fid: Fid, tid: Tid)
        requires
            old(self).wf(),
        ensures
            final(self).wf(),
            final(self).file_map() == old(self).file_map(),
            final(self).tag_map() == old(self).tag_map(),
            final(self).file_ids() == old(self).file_ids(),
            final(self).tag_ids() == old(self).tag_ids(),
            final(self).tags_of() == old(self).tags_of().insert(
                fid,
                crate::util::collections::bound(old(self).tags_of(), fid).insert(tid),
            ),
            final(self).files_of() == old(self).files_of().insert(
                tid,
                crate::util::collections::bound(old(self).files_of(), tid).insert(fid),
            ),
    {
        self.mtom.map(fid, tid);
    }

    /// Adds a file, a tag and their association.
    pub fn add_filetag(&mut self, f: file::Borrow, t: tag::Borrow)
        requires
            old(self).wf(),
        ensures
            final(self).wf(),
            final(self).file_map() == old(self).file_map().insert(f.id as int, f@),
            final(self).tag_map() == old(self).tag_map().insert(t.id as int, t@),
            final(self).tags_of() == old(self).tags_of().insert(
                f.id,
                crate::util::collections::bound(old(self).tags_of(), f.id).insert(t.id),
            ),
            final(self).files_of() == old(self).files_of().insert(
                t.id,
                crate::util::collections::bound(old(self).files_of(), t.id).insert(f.id),
            ),
    {
        let fid = f.id;
        let tid = t.id;
        self.add_file(f);
        self.add_tag(t);
        self.add_ids(fid, tid);
    }

    /// The view of a file: its row and the ids of its tags.
    pub fn file<'q>(&'q self, id: Fid) -> (r: Result<FileView<'q>, Error>)
        requires
            self.wf(),
        ensures
            match r {
                Ok(view) => self.has_file(id) && view.wf() && view@ == self.file_map()[id as int]
                    && view@.id == id && view.tids() == self.tags_of()[id] && *view.maps()
                    == *self && view.subject() == self.subject(id),
                Err(e) => !self.has_file(id) && e@ == Seq::<char>::empty(),
            },
    {
        let file = match self.fids.by_uid(&id) {
            Ok(file) => file,
            Err(e) => {
                return Err(e);
            },
        };
        let tids = match self.mtom.get_rs(&id) {
            Ok(tids) => tids,
            Err(e) => {
                return Err(e);
            },
        };
        if tids.is_empty() {
            return Err(Error::UnknownId { id: String::new() });
        }
        Ok(FileView { id, maps: self, path: file.path.as_str(), kind: file.kind, tids })
    }

    /// The view of a tag: its row and the ids of its files.
    pub fn tag<'q>(&'q self, id: Tid) -> (r: Result<TagView<'q>, Error>)
        requires
            self.wf(),
        ensures
            match r {
                Ok(view) => self.has_tag(id) && view.wf() && view@ == self.tag_map()[id as int]
                    && view@.id == id && view.fids() == self.files_of()[id] && *view.maps()
                    == *self,
                Err(e) => !self.has_tag(id) && e@ == Seq::<char>::empty(),
            },
    {
        let tag = match self.tids.by_uid(&id) {
            Ok(tag) => tag,
            Err(e) => {
                return Err(e);
            },
        };
        let fids = match self.mtom.get_ls(&id) {
            Ok(fids) => fids,
            Err(e) => {
                return Err(e);
            },
        };
        Ok(TagView { id, maps: self, name: tag.name.as_str(), fids })
    }
}

/// The rows with their maps: what a mapped result owns.
#[derive(Debug)]
pub struct OwnedMaps {
    cols: Columns,
    maps: Maps,
}

impl OwnedMaps {
    /// The maps are those of the rows.
    pub closed spec fn wf(&self) -> bool {
        &&& self.maps.wf()
        &&& self.maps.file_map() == files_by_id(self.cols.file_col())
        &&& self.maps.tag_map() == tags_by_id(self.cols.tag_col())
    }

    /// The maps.
    pub closed spec fn maps(&self) -> &Maps {
        &self.maps
    }

    /// The rows.
    pub closed spec fn columns(&self) -> &Columns {
        &self.cols
    }

    /// The parts of a well-formed value are well formed.
    pub proof fn lemma_wf(&self)
        requires
            self.wf(),
        ensures
            self.maps().wf(),
            self.maps().file_map() == files_by_id(self.columns().file_col()),
            self.maps().tag_map() == tags_by_id(self.columns().tag_col()),
    {
    }

    /// Indexes the rows of `cols`, with `mtom` as the associations.
    pub fn new(cols: Columns, mtom: ManyToManyIds) -> (m: Self)
        requires
            mtom.wf(),
        ensures
            m.wf(),
            *m.columns() == cols,
            m.maps().tags_of() == mtom.lefts(),
            m.maps().files_of() == mtom.rights(),
    {
        let maps = Maps::from_cols_and_mtom(&cols, mtom);
        OwnedMaps { cols, maps }
    }

    /// The files by id, and the ids by path and kind.
    pub fn fids(&self) -> (m: &OneToOneFid)
        ensures
            m.wf() == self.maps().wf_fids(),
            m.order() == self.maps().file_order(),
            m.back() == self.maps().file_ids(),
            forall|id: i64|
                m.forth().contains_key(id) <==> self.maps().file_map().contains_key(id as int),
    {
        self.maps.fids()
    }

    /// The tags by id, and the ids by name.
    pub fn tids(&self) -> (m: &OneToOneTid)
        ensures
            m.wf() == self.maps().wf_tids(),
            m.order() == self.maps().tag_order(),
            m.back() == self.maps().tag_ids(),
            forall|id: i64|
                m.forth().contains_key(id) <==> self.maps().tag_map().contains_key(id as int),
    {
        self.maps.tids()
    }

    /// Which file has which tag.
    pub fn mtom(&self) -> (m: &ManyToManyIds)
        ensures
            self.maps().wf() ==> m.wf(),
            m.lefts() == self.maps().tags_of(),
            m.rights() == self.maps().files_of(),
    {
        self.maps.mtom()
    }

    /// The maps.
    pub fn inner(&self) -> (m: &Maps)
        ensures
            *m == *self.maps(),
    {
        &self.maps
    }
}

/// A view of a file and of the ids of its tags.
pub struct FileView<'q> {
    id: Fid,
    kind: Kind,
    path: &'q str,
    tids: &'q VecSet<Tid>,
    maps: &'q Maps,
}

impl<'q> View for FileView<'q> {
    type V = FileRow;

    closed spec fn view(&self) -> FileRow {
        FileRow { id: self.id as int, kind: self.kind as int, path: self.path@ }
    }
}

/// The names of the tags with the ids `ids`, added to `acc`. The first id
/// that has no tag in the maps, and the first name that may not be a tag, are
/// errors.
pub open spec fn tag_names(maps: &Maps, ids: Seq<i64>, acc: Set<Seq<char>>) -> Result<
    Set<Seq<char>>,
    any::Fault,
>
    decreases ids.len(),
{
    if ids.len() == 0 {
        Ok(acc)
    } else if !maps.has_tag(ids[0]) {
        Err(any::Fault::Collections(Seq::<char>::empty()))
    } else {
        let name = maps.tag_map()[ids[0] as int].name;
        if !valid_tag(name) {
            Err(any::Fault::Attr(attr::Fault::InvalidTag { tag: name }))
        } else {
            tag_names(maps, ids.drop_first(), acc.insert(name))
        }
    }
}

impl<'q> FileView<'q> {
    /// The set of ids and the maps are well formed, and the file has a tag.
    pub closed spec fn wf(&self) -> bool {
        self.tids.wf() && self.maps.wf() && self.tids@ != Set::<i64>::empty()
    }

    /// The ids of the tags of the file.
    pub closed spec fn tids(&self) -> Set<i64> {
        self.tids@
    }

    /// The file as the tests of a filter see it.
    pub closed spec fn subject(&self) -> Subject {
        Subject { maps: *self.maps, id: self.id, path: self.path@, tids: self.tids.order() }
    }

    /// The id of the file.
    pub closed spec fn key(&self) -> i64 {
        self.id
    }

    /// The ids of the tags of the file, in the order in which they came.
    pub closed spec fn tid_order(&self) -> Seq<i64> {
        self.tids.order()
    }

    /// The maps that the view looks into.
    pub closed spec fn maps(&self) -> &Maps {
        self.maps
    }

    /// The order lists the ids of the tags, each once.
    pub proof fn lemma_tids(&self)
        requires
            self.wf(),
        ensures
            self.tid_order().no_duplicates(),
            self.tid_order().to_set() == self.tids(),
            self.tids().finite(),
            self.tids().len() == self.tid_order().len(),
            self.tids().len() >= 1,
            self.maps().wf(),
            self.wf_tids(),
            self.subject() == (Subject {
                maps: *self.maps(),
                id: self.key(),
                path: self@.path,
                tids: self.tid_order(),
            }),
    {
        self.tids.lemma_order();
        if self.tids.order().len() == 0 {
            assert(self.tids@ =~= Set::<i64>::empty());
        }
    }

    /// The view of one of the tags of the file.
    pub fn tag(&self, id: Tid) -> (r: Result<TagView<'q>, Error>)
        requires
            self.wf(),
        ensures
            match r {
                Ok(view) => self.maps().has_tag(id) && view.wf() && view@
                    == self.maps().tag_map()[id as int] && view@.id == id && view.fids()
                    == self.maps().files_of()[id] && *view.maps() == *self.maps(),
                Err(e) => !self.maps().has_tag(id) && e@ == Seq::<char>::empty(),
            },
    {
        self.maps.tag(id)
    }

    /// The id of the file.
    pub fn id(&self) -> (id: Fid)
        ensures
            id == self@.id,
    {
        self.id
    }

    /// The kind of the file.
    pub fn kind(&self) -> (kind: Kind)
        ensures
            kind == self@.kind,
    {
        self.kind
    }

    /// The path of the file.
    pub fn path(&self) -> (path: &'q str)
        ensures
            path@ == self@.path,
    {
        self.path
    }

    /// The ids of the tags of the file.
    pub fn tag_ids(&self) -> (ids: &'q VecSet<Tid>)
        ensures
            ids@ == self.tids(),
            ids.order() == self.tid_order(),
            ids.wf() == self.wf_tids(),
    {
        self.tids
    }

    /// Whether the set of ids is well formed.
    pub closed spec fn wf_tids(&self) -> bool {
        self.tids.wf()
    }

    /// The tags of the file, as a set of tags.
    pub fn tag_set(&self) -> (r: Result<VecSet<Tag>, any::Error>)
        requires
            self.wf(),
        ensures
            match tag_names(self.maps(), self.tid_order(), Set::<Seq<char>>::empty()) {
                Ok(names) => r matches Ok(set) && set.wf() && set@ == names,
                Err(f) => r matches Err(e) && e@ == f,
            },
    {
        let mut set: VecSet<Tag> = VecSet::new();
        let n = self.tids.len();
        let mut i: usize = 0;
        let ghost ids = self.tids.order();
        assert(ids.skip(0) =~= ids);
        while i < n
            invariant
                i <= n,
                n == ids.len(),
                ids == self.tids.order(),
                self.wf(),
                set.wf(),
                tag_names(self.maps, ids, Set::<Seq<char>>::empty()) == tag_names(
                    self.maps,
                    ids.skip(i as int),
                    set@,
                ),
            decreases n - i,
        {
            let tid = *self.tids.get(i);
            proof {
                assert(ids.skip(i as int)[0] == tid);
                assert(ids.skip(i as int).drop_first() =~= ids.skip(i + 1));
            }
            let view = match self.maps.tag(tid) {
                Ok(view) => view,
                Err(e) => {
                    return Err(any::Error::Collections(e));
                },
            };
            match Tag::new(view.name()) {
                Ok(tag) => {
                    set.insert(tag);
                },
                Err(e) => {
                    return Err(any::Error::Attr(e));
                },
            }
            i += 1;
        }
        Ok(set)
    }

    /// The tags of the file, one view after the other.
    pub fn iter(&self) -> (it: MapTagIter<'q>)
        requires
            self.wf(),
        ensures
            it.wf(),
            it.rest() == self.tid_order(),
            *it.maps() == *self.maps(),
    {
        let mut ids: Vec<Tid> = Vec::new();
        let n = self.tids.len();
        let mut i: usize = 0;
        while i < n
            invariant
                i <= n,
                n == self.tids.order().len(),
                ids@ == self.tids.order().take(i as int),
            decreases n - i,
        {
            ids.push(*self.tids.get(i));
            assert(ids@ =~= self.tids.order().take(i as int + 1));
            i += 1;
        }
        assert(self.tids.order().take(i as int) =~= self.tids.order());
        MapTagIter::from_iter(self.maps, ids)
    }

    /// The file with its id, as a value of its own.
    pub fn as_borrow(&self) -> (b: file::Borrow)
        ensures
            b@ == self@,
    {
        file::Borrow { id: self.id, path: self.path.to_owned(), kind: self.kind }
    }
}

impl<'q> FileExt for FileView<'q> {
    open spec fn row(&self) -> FileRow {
        self@
    }

    fn id(&self) -> (id: Fid) {
        self.id
    }

    fn kind(&self) -> (kind: Kind) {
        self.kind
    }

    fn path(&self) -> (path: &str) {
        self.path
    }

    fn borrow(&self) -> (b: file::Borrow) {
        self.as_borrow()
    }
}

/// The values of the variables of a file: the number of its tags without the
/// one that every file has, the length of its path in bytes, and its id.
pub open spec fn file_parameters(id: i64, path: Seq<char>, tids: Set<i64>) -> Map<
    Seq<char>,
    u64,
> {
    Map::<Seq<char>, u64>::empty().insert(var_tags_len(), (tids.len() - 1) as u64).insert(
        var_path_len(),
        (encode_utf8(path).len() as usize) as u64,
    ).insert(var_file_id(), id as u64)
}

/// The values of the variables of a file as a filter sees it.
pub open spec fn subject_parameters(subject: Subject) -> Map<Seq<char>, u64> {
    file_parameters(subject.id, subject.path, subject.tids.to_set())
}

impl<'q> Parameters for FileView<'q> {
    open spec fn parameters_spec(&self) -> Map<Seq<char>, u64> {
        subject_parameters(self.subject())
    }

    open spec fn parameters_ready(&self) -> bool {
        self.wf()
    }

    fn parameters(&self) -> (r: VecMap<String, u64>) {
        assert(self.parameters_ready());
        assert(self.wf());
        proof {
            reveal_strlit("tags.len");
            reveal_strlit("path.len");
            reveal_strlit("file.id");
            assert("tags.len"@ =~= var_tags_len());
            assert("path.len"@ =~= var_path_len());
            assert("file.id"@ =~= var_file_id());
            self.lemma_tids();
        }
        let mut map: VecMap<String, u64> = VecMap::new();
        map.insert(TAGS_LEN.to_owned(), (self.tids.len() - 1) as u64);
        map.insert(PATH_LEN.to_owned(), self.path.len() as u64);
        map.insert(FILE_ID.to_owned(), #[verifier::truncate] (self.id as u64));
        proof {
            let subject = self.subject();
            assert(subject.tids.to_set() == self.tids());
            assert(subject.id == self.id);
            assert(subject.path == self.path@);
            assert(map@ =~= file_parameters(subject.id, subject.path, subject.tids.to_set()));
            assert(self.parameters_spec() == subject_parameters(subject));
            assert(map@ == self.parameters_spec());
        }
        map
    }
}

/// A view of a tag and of the ids of its files.
pub struct TagView<'q> {
    id: Tid,
    name: &'q str,
    fids: &'q VecSet<Fid>,
    maps: &'q Maps,
}

impl<'q> View for TagView<'q> {
    type V = TagRow;

    closed spec fn view(&self) -> TagRow {
        TagRow { id: self.id as int, name: self.name@ }
    }
}

impl<'q> TagView<'q> {
    /// The set of ids and the maps are well formed.
    pub closed spec fn wf(&self) -> bool {
        self.fids.wf() && self.maps.wf()
    }

    /// The ids of the files of the tag.
    pub closed spec fn fids(&self) -> Set<i64> {
        self.fids@
    }

    /// The ids of the files of the tag, in the order in which they came.
    pub closed spec fn fid_order(&self) -> Seq<i64> {
        self.fids.order()
    }

    /// The maps that the view looks into.
    pub closed spec fn maps(&self) -> &Maps {
        self.maps
    }

    /// The id of the tag.
    pub fn id(&self) -> (id: Tid)
        ensures
            id == self@.id,
    {
        self.id
    }

    /// The name of the tag.
    pub fn name(&self) -> (name: &'q str)
        ensures
            name@ == self@.name,
    {
        self.name
    }

    /// The ids of the files of the tag.
    pub fn file_ids(&self) -> (ids: &'q VecSet<Fid>)
        ensures
            ids@ == self.fids(),
            ids.order() == self.fid_order(),
    {
        self.fids
    }

    /// The files of the tag, one view after the other.
    pub fn iter(&self) -> (it: MapFileIter<'q>)
        requires
            self.wf(),
        ensures
            it.wf(),
            it.rest() == self.fid_order(),
            *it.maps() == *self.maps(),
    {
        let mut ids: Vec<Fid> = Vec::new();
        let n = self.fids.len();
        let mut i: usize = 0;
        while i < n
            invariant
                i <= n,
                n == self.fids.order().len(),
                ids@ == self.fids.order().take(i as int),
            decreases n - i,
        {
            ids.push(*self.fids.get(i));
            assert(ids@ =~= self.fids.order().take(i as int + 1));
            i += 1;
        }
        assert(self.fids.order().take(i as int) =~= self.fids.order());
        MapFileIter::from_iter(self.maps, ids)
    }

    /// The tag with its id, as a value of its own.
    pub fn as_borrow(&self) -> (b: tag::Borrow)
        ensures
            b@ == self@,
    {
        tag::Borrow { id: self.id, name: self.name.to_owned() }
    }
}

impl<'q> TagExt for TagView<'q> {
    open spec fn row(&self) -> TagRow {
        self@
    }

    fn id(&self) -> (id: Tid) {
        self.id
    }

    fn name(&self) -> (name: &str) {
        self.name
    }

    fn borrow(&self) -> (b: tag::Borrow) {
        self.as_borrow()
    }
}

/// Walks the views of a list of files.
pub struct MapFileIter<'q> {
    data: &'q Maps,
    ids: Vec<Fid>,
    pos: usize,
}

impl<'q> MapFileIter<'q> {
    /// The maps are well formed and the position is inside the list.
    pub closed spec fn wf(&self) -> bool {
        self.data.wf() && self.pos <= self.ids@.len()
    }

    /// The ids that have not been walked.
    pub closed spec fn rest(&self) -> Seq<i64> {
        self.ids@.skip(self.pos as int)
    }

    /// The maps that the views look into.
    pub closed spec fn maps(&self) -> &Maps {
        self.data
    }

    /// Walks all the files of the maps, in the order in which they came.
    pub fn new(data: &'q Maps) -> (it: Self)
        requires
            data.wf(),
        ensures
            it.wf(),
            it.rest() == data.file_order(),
            *it.maps() == *data,
    {
        let ids = ordered_uids(data.fids());
        Self::from_iter(data, ids)
    }

    /// Walks the files with the given ids.
    pub fn from_iter(data: &'q Maps, iter: Vec<Fid>) -> (it: Self)
        requires
            data.wf(),
        ensures
            it.wf(),
            it.rest() == iter@,
            *it.maps() == *data,
    {
        assert(iter@.skip(0) =~= iter@);
        MapFileIter { data, ids: iter, pos: 0 }
    }

    /// The view of the next file; an error where the maps do not hold it.
    pub fn next(&mut self) -> (r: Option<Result<FileView<'q>, Error>>)
        requires
            old(self).wf(),
        ensures
            final(self).wf(),
            *final(self).maps() == *old(self).maps(),
            match r {
                None => old(self).rest().len() == 0 && final(self).rest() == old(self).rest(),
                Some(item) => old(self).rest().len() > 0 && final(self).rest() == old(
                    self,
                ).rest().drop_first() && (match item {
                    Ok(view) => old(self).maps().has_file(old(self).rest()[0]) && view.wf()
                        && view.subject() == old(self).maps().subject(old(self).rest()[0])
                        && view@ == old(self).maps().file_map()[old(self).rest()[0] as int]
                        && view.tids() == old(self).maps().tags_of()[old(self).rest()[0]]
                        && *view.maps() == *old(self).maps(),
                    Err(e) => !old(self).maps().has_file(old(self).rest()[0]),
                }),
            },
    {
        if self.pos >= self.ids.len() {
            return None;
        }
        let id = self.ids[self.pos];
        proof {
            assert(self.rest()[0] == id);
            assert(self.rest().drop_first() =~= self.ids@.skip(self.pos + 1));
        }
        self.pos += 1;
        Some(self.data.file(id))
    }
}

/// Walks the views of a list of tags.
pub struct MapTagIter<'q> {
    data: &'q Maps,
    ids: Vec<Tid>,
    pos: usize,
}

impl<'q> MapTagIter<'q> {
    /// The maps are well formed and the position is inside the list.
    pub closed spec fn wf(&self) -> bool {
        self.data.wf() && self.pos <= self.ids@.len()
    }

    /// The ids that have not been walked.
    pub closed spec fn rest(&self) -> Seq<i64> {
        self.ids@.skip(self.pos as int)
    }

    /// The maps that the views look into.
    pub closed spec fn maps(&self) -> &Maps {
        self.data
    }

    /// Walks all the tags of the maps, in the order in which they came.
    pub fn new(data: &'q Maps) -> (it: Self)
        requires
            data.wf(),
        ensures
            it.wf(),
            it.rest() == data.tag_order(),
            *it.maps() == *data,
    {
        let ids = ordered_uids(data.tids());
        Self::from_iter(data, ids)
    }

    /// Walks the tags with the given ids.
    pub fn from_iter(data: &'q Maps, iter: Vec<Tid>) -> (it: Self)
        requires
            data.wf(),
        ensures
            it.wf(),
            it.rest() == iter@,
            *it.maps() == *data,
    {
        assert(iter@.skip(0) =~= iter@);
        MapTagIter { data, ids: iter, pos: 0 }
    }

    /// The view of the next tag; an error where the maps do not hold it.
    pub fn next(&mut self) -> (r: Option<Result<TagView<'q>, Error>>)
        requires
            old(self).wf(),
        ensures
            final(self).wf(),
            *final(self).maps() == *old(self).maps(),
            match r {
                None => old(self).rest().len() == 0 && final(self).rest() == old(self).rest(),
                Some(item) => old(self).rest().len() > 0 && final(self).rest() == old(
                    self,
                ).rest().drop_first() && (match item {
                    Ok(view) => old(self).maps().has_tag(old(self).rest()[0]) && view.wf()
                        && view@ == old(self).maps().tag_map()[old(self).rest()[0] as int]
                        && view.fids() == old(self).maps().files_of()[old(self).rest()[0]]
                        && *view.maps() == *old(self).maps(),
                    Err(e) => !old(self).maps().has_tag(old(self).rest()[0]),
                }),
            },
    {
        if self.pos >= self.ids.len() {
            return None;
        }
        let id = self.ids[self.pos];
        proof {
            assert(self.rest()[0] == id);
            assert(self.rest().drop_first() =~= self.ids@.skip(self.pos + 1));
        }
        self.pos += 1;
        Some(self.data.tag(id))
    }
}

/// The ids on the left of a map, in the order in which they came.
pub fn ordered_uids<L: HasId<Uid>, R: HasId<RID>, RID: Key>(map: &OneToOneFat<L, Uid, R, RID>) -> (ids:
    Vec<Uid>)
    requires
        map.wf(),
    ensures
        ids@ == map.order(),
{
    let mut ids: Vec<Uid> = Vec::new();
    let n = map.len();
    let mut i: usize = 0;
    while i < n
        invariant
            i <= n,
            n == map.order().len(),
            map.wf(),
            ids@ == map.order().take(i as int),
        decreases n - i,
    {
        ids.push(*map.uid_at(i));
        assert(ids@ =~= map.order().take(i as int + 1));
        i += 1;
    }
    assert(map.order().take(i as int) =~= map.order());
    ids
}

/// The views of the files with the given ids; an error where the maps do not
/// hold one of them.
pub fn file_views<'q>(maps: &'q Maps, ids: &Vec<Fid>) -> (r: Result<Vec<FileView<'q>>, Error>)
    requires
        maps.wf(),
    ensures
        match r {
            Ok(views) => views@.len() == ids@.len() && maps.has_files(ids@) && forall|i: int|
                0 <= i < ids@.len() ==> (#[trigger] views@[i]).wf() && maps.has_file(ids@[i])
                    && views@[i]@ == maps.file_map()[ids@[i] as int] && views@[i].tids()
                    == maps.tags_of()[ids@[i]] && *views@[i].maps() == *maps
                    && views@[i].subject() == maps.subject(ids@[i]),
            Err(e) => e@ == Seq::<char>::empty() && !maps.has_files(ids@),
        },
{
    let mut views: Vec<FileView<'q>> = Vec::new();
    let mut i: usize = 0;
    while i < ids.len()
        invariant
            i <= ids@.len(),
            maps.wf(),
            views@.len() == i,
            forall|k: int|
                0 <= k < i ==> (#[trigger] views@[k]).wf() && maps.has_file(ids@[k]) && views@[k]@
                    == maps.file_map()[ids@[k] as int] && views@[k].tids() == maps.tags_of()[ids@[k]]
                    && *views@[k].maps() == *maps && views@[k].subject() == maps.subject(ids@[k]),
        decreases ids@.len() - i,
    {
        match maps.file(ids[i]) {
            Err(e) => {
                assert(!maps.has_file(ids@[i as int]));
                return Err(e);
            },
            Ok(view) => {
                let ghost before = views@;
                let ghost rows = view@;
                let ghost tids = view.tids();
                let ghost wf = view.wf();
                let ghost inner = *view.maps();
                let ghost subject = view.subject();
                views.push(view);
                proof {
                    assert(views@[i as int].subject() == subject);
                    assert(views@[i as int]@ == rows);
                    assert(views@[i as int].tids() == tids);
                    assert(views@[i as int].wf() == wf);
                    assert(*views@[i as int].maps() == inner);
                    assert forall|k: int| 0 <= k < i implies views@[k] == before[k] by {}
                }
            },
        }
        i += 1;
    }
    proof {
        assert forall|k: int| 0 <= k < ids@.len() implies maps.has_file(#[trigger] ids@[k]) by {
            assert(views@[k].wf());
        }
    }
    Ok(views)
}

/// The views of the tags with the given ids; an error where the maps do not
/// hold one of them.
pub fn tag_views<'q>(maps: &'q Maps, ids: &Vec<Tid>) -> (r: Result<Vec<TagView<'q>>, Error>)
    requires
        maps.wf(),
    ensures
        match r {
            Ok(views) => views@.len() == ids@.len() && maps.has_tags(ids@) && forall|i: int|
                0 <= i < ids@.len() ==> (#[trigger] views@[i]).wf() && maps.has_tag(ids@[i])
                    && views@[i]@ == maps.tag_map()[ids@[i] as int] && views@[i].fids()
                    == maps.files_of()[ids@[i]] && *views@[i].maps() == *maps,
            Err(e) => e@ == Seq::<char>::empty() && !maps.has_tags(ids@),
        },
{
    let mut views: Vec<TagView<'q>> = Vec::new();
    let mut i: usize = 0;
    while i < ids.len()
        invariant
            i <= ids@.len(),
            maps.wf(),
            views@.len() == i,
            forall|k: int|
                0 <= k < i ==> (#[trigger] views@[k]).wf() && maps.has_tag(ids@[k]) && views@[k]@
                    == maps.tag_map()[ids@[k] as int] && views@[k].fids() == maps.files_of()[ids@[k]]
                    && *views@[k].maps() == *maps,
        decreases ids@.len() - i,
    {
        match maps.tag(ids[i]) {
            Err(e) => {
                assert(!maps.has_tag(ids@[i as int]));
                return Err(e);
            },
            Ok(view) => {
                let ghost before = views@;
                let ghost rows = view@;
                let ghost fids = view.fids();
                let ghost wf = view.wf();
                let ghost inner = *view.maps();
                views.push(view);
                proof {
                    assert(views@[i as int]@ == rows);
                    assert(views@[i as int].fids() == fids);
                    assert(views@[i as int].wf() == wf);
                    assert(*views@[i as int].maps() == inner);
                    assert forall|k: int| 0 <= k < i implies views@[k] == before[k] by {}
                }
            },
        }
        i += 1;
    }
    proof {
        assert forall|k: int| 0 <= k < ids@.len() implies maps.has_tag(#[trigger] ids@[k]) by {
            assert(views@[k].wf());
        }
    }
    Ok(views)
}

/// What shows files and tags through maps.
pub trait Viewable {
    /// The maps.
    spec fn shown_maps(&self) -> &Maps;

    /// The ids of the files that are shown.
    spec fn shown_files(&self) -> Seq<i64>;

    /// The ids of the tags that are shown.
    spec fn shown_tags(&self) -> Seq<i64>;

    /// What showing needs of `self`.
    spec fn viewable(&self) -> bool;

    /// The maps.
    fn maps(&self) -> (m: &Maps)
        requires
            self.viewable(),
        ensures
            *m == *self.shown_maps(),
            m.wf(),
    ;

    /// The ids of the tags that are shown.
    fn tag_view(&self) -> (ids: Vec<Tid>)
        requires
            self.viewable(),
        ensures
            ids@ == self.shown_tags(),
    ;

    /// The ids of the files that are shown.
    fn file_view(&self) -> (ids: Vec<Fid>)
        requires
            self.viewable(),
        ensures
            ids@ == self.shown_files(),
    ;

    /// The number of files in the maps.
    fn file_count(&self) -> (n: usize)
        requires
            self.viewable(),
        ensures
            n == self.shown_maps().file_order().len(),
    {
        let maps = self.maps();
        proof {
            maps.lemma_wf();
        }
        maps.fids().len()
    }

    /// The number of tags in the maps.
    fn tag_count(&self) -> (n: usize)
        requires
            self.viewable(),
        ensures
            n == self.shown_maps().tag_order().len(),
    {
        let maps = self.maps();
        proof {
            maps.lemma_wf();
        }
        maps.tids().len()
    }
}

impl Viewable for Maps {
    open spec fn shown_maps(&self) -> &Maps {
        self
    }

    open spec fn shown_files(&self) -> Seq<i64> {
        self.file_order()
    }

    open spec fn shown_tags(&self) -> Seq<i64> {
        self.tag_order()
    }

    open spec fn viewable(&self) -> bool {
        self.wf()
    }

    fn maps(&self) -> (m: &Maps) {
        assert(self.viewable());
        assert(*self == *self.shown_maps());
        self
    }

    fn tag_view(&self) -> (ids: Vec<Tid>) {
        assert(self.viewable());
        let ids = ordered_uids(&self.tids);
        assert(ids@ == self.shown_tags());
        ids
    }

    fn file_view(&self) -> (ids: Vec<Fid>) {
        assert(self.viewable());
        let ids = ordered_uids(&self.fids);
        assert(ids@ == self.shown_files());
        ids
    }
}

impl Viewable for OwnedMaps {
    open spec fn shown_maps(&self) -> &Maps {
        self.maps()
    }

    open spec fn shown_files(&self) -> Seq<i64> {
        self.maps().file_order()
    }

    open spec fn shown_tags(&self) -> Seq<i64> {
        self.maps().tag_order()
    }

    open spec fn viewable(&self) -> bool {
        self.wf()
    }

    fn maps(&self) -> (m: &Maps) {
        assert(self.viewable());
        assert(self.maps == *self.shown_maps());
        &self.maps
    }

    fn tag_view(&self) -> (ids: Vec<Tid>) {
        assert(self.viewable());
        let ids = ordered_uids(&self.maps.tids);
        assert(ids@ == self.shown_tags());
        ids
    }

    fn file_view(&self) -> (ids: Vec<Fid>) {
        assert(self.viewable());
        let ids = ordered_uids(&self.maps.fids);
        assert(ids@ == self.shown_files());
        ids
    }
}

} // verus!
