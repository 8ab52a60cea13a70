//! Collectors: what is taken out of the results of a query.
use crate::app::attr::api::is_ghost;
use crate::app::data::query::forcings::{Forced, Forcings};
use crate::app::data::query::maps::{FileView, Maps};
use crate::app::data::query::state::Results;
use crate::model::file::FileRow;
use crate::model::tag::TagRow;
use crate::model::{Fid, Tid};
use crate::util::error::{Error, Fault};
use crate::util::string::{append, append_str, collect, digits, join, join_chars, to_chars, to_decimal};
use crate::util::table::views;
use vstd::prelude::*;

verus! {

/// Takes something out of the results of a query, and says how far the query
/// must be driven for it.
pub trait Collector<C> {
    /// Whether `out` is what the collector takes out of `results`.
    spec fn collects(&self, results: Results, out: C) -> bool;

    /// How far the query must be driven for the collector: the least that it
    /// forces.
    spec fn needs(&self) -> Forced;

    /// How far the query must be driven.
    fn forcings(&self) -> (f: Forcings)
        ensures
            f.wf(),
            f@ == self.needs(),
    ;

    /// Takes what the collector is for out of the results.
    fn collect_results(&self, results: Results) -> (out: C)
        requires
            results.wf(),
        ensures
            self.collects(results, out),
    ;

    /// Takes what the collector is for out of the results.
    fn collect(&self, results: Results) -> (out: C)
        requires
            results.wf(),
        ensures
            self.collects(results, out),
    {
        self.collect_results(results)
    }
}

/// What can be written as a line of text.
pub trait Stringify {
    /// The line.
    spec fn line(&self) -> Seq<char>;

    /// The value as a line of text.
    fn stringify(&self) -> (s: String)
        ensures
            s@ == self.line(),
    ;
}

impl Stringify for usize {
    open spec fn line(&self) -> Seq<char> {
        digits(*self as nat).push('\n')
    }

    fn stringify(&self) -> (s: String) {
        let mut out = to_decimal(*self);
        out.push('\n');
        collect(&out)
    }
}

/// The ids of a list of files.
pub open spec fn file_ids(rows: Seq<FileRow>) -> Seq<int> {
    rows.map_values(|r: FileRow| r.id)
}

/// The ids of a list of tags.
pub open spec fn tag_ids(rows: Seq<TagRow>) -> Seq<int> {
    rows.map_values(|r: TagRow| r.id)
}

/// The ids of a list, as integers.
pub open spec fn ints(ids: Seq<i64>) -> Seq<int> {
    ids.map_values(|i: i64| i as int)
}

/// The texts of a list, each followed by a line feed, one after the other.
pub open spec fn lines(texts: Seq<Seq<char>>) -> Seq<char>
    decreases texts.len(),
{
    if texts.len() == 0 {
        Seq::<char>::empty()
    } else {
        lines(texts.drop_last()) + texts.last() + seq!['\n']
    }
}

/// The paths of a list of files.
pub open spec fn file_paths(rows: Seq<FileRow>) -> Seq<Seq<char>> {
    rows.map_values(|r: FileRow| r.path)
}

/// The names of a list of tags.
pub open spec fn tag_names(rows: Seq<TagRow>) -> Seq<Seq<char>> {
    rows.map_values(|r: TagRow| r.name)
}

/// Collects the ids of the files.
pub struct FileIds;

impl Collector<Result<Vec<Fid>, Error>> for FileIds {
    open spec fn needs(&self) -> Forced {
        Forced { mapped: false, filtered: false, piped: false }
    }

    open spec fn collects(&self, results: Results, out: Result<Vec<Fid>, Error>) -> bool {
        match results.rows() {
            Ok(rows) => out matches Ok(ids) && ints(ids@) == file_ids(rows),
            Err(f) => out matches Err(e) && e@ == f,
        }
    }

    fn forcings(&self) -> (f: Forcings) {
        Forcings::new()
    }

    fn collect_results(&self, results: Results) -> (out: Result<Vec<Fid>, Error>) {
        let files = match results.file_iter() {
            Ok(files) => files,
            Err(e) => {
                return Err(e);
            },
        };
        let mut ids: Vec<Fid> = Vec::new();
        let mut i: usize = 0;
        let ghost all = file_ids(results.rows()->Ok_0);
        while i < files.len()
            invariant
                i <= files@.len(),
                all.len() == files@.len(),
                forall|k: int| 0 <= k < files@.len() ==> (#[trigger] files@[k]).id == all[k],
                ints(ids@) == all.take(i as int),
            decreases files@.len() - i,
        {
            let ghost before = ids@;
            ids.push(files[i].id);
            proof {
                assert(ints(ids@) =~= ints(before).push(files@[i as int].id as int));
                assert(all.take(i as int + 1) =~= all.take(i as int).push(all[i as int]));
            }
            i += 1;
        }
        assert(all.take(i as int) =~= all);
        Ok(ids)
    }
}

/// Collects the ids of the tags.
pub struct TagIds;

impl Collector<Result<Vec<Tid>, Error>> for TagIds {
    open spec fn needs(&self) -> Forced {
        Forced { mapped: false, filtered: false, piped: false }
    }

    open spec fn collects(&self, results: Results, out: Result<Vec<Tid>, Error>) -> bool {
        match results.tags() {
            Ok(rows) => out matches Ok(ids) && ints(ids@) == tag_ids(rows),
            Err(f) => out matches Err(e) && e@ == f,
        }
    }

    fn forcings(&self) -> (f: Forcings) {
        Forcings::new()
    }

    fn collect_results(&self, results: Results) -> (out: Result<Vec<Tid>, Error>) {
        let tags = match results.tag_iter() {
            Ok(tags) => tags,
            Err(e) => {
                return Err(e);
            },
        };
        let mut ids: Vec<Tid> = Vec::new();
        let mut i: usize = 0;
        let ghost all = tag_ids(results.tags()->Ok_0);
        while i < tags.len()
            invariant
                i <= tags@.len(),
                all.len() == tags@.len(),
                forall|k: int| 0 <= k < tags@.len() ==> (#[trigger] tags@[k]).id == all[k],
                ints(ids@) == all.take(i as int),
            decreases tags@.len() - i,
        {
            let ghost before = ids@;
            ids.push(tags[i].id);
            proof {
                assert(ints(ids@) =~= ints(before).push(tags@[i as int].id as int));
                assert(all.take(i as int + 1) =~= all.take(i as int).push(all[i as int]));
            }
            i += 1;
        }
        assert(all.take(i as int) =~= all);
        Ok(ids)
    }
}

/// Collects the number of rows of the files.
pub struct FileCount;

impl Collector<Result<usize, Error>> for FileCount {
    open spec fn needs(&self) -> Forced {
        Forced { mapped: false, filtered: false, piped: false }
    }

    open spec fn collects(&self, results: Results, out: Result<usize, Error>) -> bool {
        out matches Ok(n) && n == results.files_len()
    }

    fn forcings(&self) -> (f: Forcings) {
        Forcings::new()
    }

    fn collect_results(&self, results: Results) -> (out: Result<usize, Error>) {
        Ok(results.row_count())
    }
}

/// Collects the number of rows; like [`FileCount`], it counts the rows of
/// the files.
pub struct TagCount;

impl Collector<Result<usize, Error>> for TagCount {
    open spec fn needs(&self) -> Forced {
        Forced { mapped: false, filtered: false, piped: false }
    }

    open spec fn collects(&self, results: Results, out: Result<usize, Error>) -> bool {
        out matches Ok(n) && n == results.files_len()
    }

    fn forcings(&self) -> (f: Forcings) {
        Forcings::new()
    }

    fn collect_results(&self, results: Results) -> (out: Result<usize, Error>) {
        Ok(results.row_count())
    }
}

/// Writes each text of a list on a line of its own.
fn write_lines(list: &Vec<String>) -> (s: String)
    ensures
        s@ == lines(views(list@)),
{
    let mut out: Vec<char> = Vec::new();
    let mut i: usize = 0;
    let ghost all = views(list@);
    assert(all.take(0) =~= Seq::<Seq<char>>::empty());
    while i < list.len()
        invariant
            i <= list@.len(),
            all == views(list@),
            out@ == lines(all.take(i as int)),
        decreases list@.len() - i,
    {
        proof {
            let next = all.take(i as int + 1);
            assert(next.drop_last() =~= all.take(i as int));
            assert(next.last() == list@[i as int]@);
        }
        append_str(&mut out, list[i].as_str());
        out.push('\n');
        i += 1;
    }
    assert(all.take(i as int) =~= all);
    collect(&out)
}

/// The paths of the files of a result.
fn paths_of(results: &Results) -> (r: Result<Vec<String>, Error>)
    requires
        results.wf(),
    ensures
        match results.rows() {
            Ok(rows) => r matches Ok(list) && views(list@) == file_paths(rows),
            Err(f) => r matches Err(e) && e@ == f,
        },
{
    let files = match results.file_iter() {
        Ok(files) => files,
        Err(e) => {
            return Err(e);
        },
    };
    let mut list: Vec<String> = Vec::new();
    let mut i: usize = 0;
    let ghost all = file_paths(results.rows()->Ok_0);
    while i < files.len()
        invariant
            i <= files@.len(),
            all.len() == files@.len(),
            forall|k: int| 0 <= k < files@.len() ==> (#[trigger] files@[k]).path@ == all[k],
            views(list@) == all.take(i as int),
        decreases files@.len() - i,
    {
        let ghost before = list@;
        list.push(files[i].path.clone());
        proof {
            assert(views(list@) =~= views(before).push(files@[i as int].path@));
            assert(all.take(i as int + 1) =~= all.take(i as int).push(all[i as int]));
        }
        i += 1;
    }
    assert(all.take(i as int) =~= all);
    Ok(list)
}

/// Collects the paths of the files, each on a line of its own.
pub struct FilePaths;

impl Collector<Result<String, Error>> for FilePaths {
    open spec fn needs(&self) -> Forced {
        Forced { mapped: false, filtered: false, piped: false }
    }

    open spec fn collects(&self, results: Results, out: Result<String, Error>) -> bool {
        match results.rows() {
            Ok(rows) => out matches Ok(s) && s@ == lines(file_paths(rows)),
            Err(f) => out matches Err(e) && e@ == f,
        }
    }

    fn forcings(&self) -> (f: Forcings) {
        Forcings::new()
    }

    fn collect_results(&self, results: Results) -> (out: Result<String, Error>) {
        match paths_of(&results) {
            Ok(list) => Ok(write_lines(&list)),
            Err(e) => Err(e),
        }
    }
}

/// Collects the names of the tags, each on a line of its own.
pub struct TagNames;

impl Collector<Result<String, Error>> for TagNames {
    open spec fn needs(&self) -> Forced {
        Forced { mapped: false, filtered: false, piped: false }
    }

    open spec fn collects(&self, results: Results, out: Result<String, Error>) -> bool {
        match results.tags() {
            Ok(rows) => out matches Ok(s) && s@ == lines(tag_names(rows)),
            Err(f) => out matches Err(e) && e@ == f,
        }
    }

    fn forcings(&self) -> (f: Forcings) {
        Forcings::new()
    }

    fn collect_results(&self, results: Results) -> (out: Result<String, Error>) {
        let tags = match results.tag_iter() {
            Ok(tags) => tags,
            Err(e) => {
                return Err(e);
            },
        };
        let mut list: Vec<String> = Vec::new();
        let mut i: usize = 0;
        let ghost all = tag_names(results.tags()->Ok_0);
        while i < tags.len()
            invariant
                i <= tags@.len(),
                all.len() == tags@.len(),
                forall|k: int| 0 <= k < tags@.len() ==> (#[trigger] tags@[k]).name@ == all[k],
                views(list@) == all.take(i as int),
            decreases tags@.len() - i,
        {
            let ghost before = list@;
            list.push(tags[i].name.clone());
            proof {
                assert(views(list@) =~= views(before).push(tags@[i as int].name@));
                assert(all.take(i as int + 1) =~= all.take(i as int).push(all[i as int]));
            }
            i += 1;
        }
        assert(all.take(i as int) =~= all);
        Ok(write_lines(&list))
    }
}

/// Collects the paths of the files whose tags are to be read.
pub struct TagFiles;

impl Collector<Result<Vec<String>, Error>> for TagFiles {
    open spec fn needs(&self) -> Forced {
        Forced { mapped: false, filtered: false, piped: false }
    }

    open spec fn collects(&self, results: Results, out: Result<Vec<String>, Error>) -> bool {
        match results.rows() {
            Ok(rows) => out matches Ok(list) && views(list@) == file_paths(rows),
            Err(f) => out matches Err(e) && e@ == f,
        }
    }

    fn forcings(&self) -> (f: Forcings) {
        Forcings::new()
    }

    fn collect_results(&self, results: Results) -> (out: Result<Vec<String>, Error>) {
        paths_of(&results)
    }
}

/// A file as it is serialized: its path and the names of the tags that
/// users are shown.
#[derive(Debug, PartialEq, Eq)]
pub struct SerialFile {
    pub path: String,
    pub tags: Vec<String>,
}

/// A [`SerialFile`] as plain values.
pub struct Record {
    pub path: Seq<char>,
    pub tags: Seq<Seq<char>>,
}

impl View for SerialFile {
    type V = Record;

    open spec fn view(&self) -> Record {
        Record { path: self.path@, tags: views(self.tags@) }
    }
}

/// The names of the tags with the ids `ids` that users are shown, added to
/// `acc`. An id that has no tag in the maps is an error.
pub open spec fn shown_names(maps: &Maps, ids: Seq<i64>, acc: Seq<Seq<char>>) -> Result<
    Seq<Seq<char>>,
    Fault,
>
    decreases ids.len(),
{
    if ids.len() == 0 {
        Ok(acc)
    } else if !maps.has_tag(ids[0]) {
        Err(Fault::Collections(Seq::<char>::empty()))
    } else {
        let name = maps.tag_map()[ids[0] as int].name;
        shown_names(
            maps,
            ids.drop_first(),
            if is_ghost(name) {
                acc
            } else {
                acc.push(name)
            },
        )
    }
}

/// The record of a file as plain text: the path, and the tags on lines of
/// their own.
pub open spec fn plain(record: Record) -> Seq<char> {
    record.path + seq!['\n', ' '] + join(record.tags, seq!['\n', ' ', '*', ' '])
}

impl SerialFile {
    /// The record of a file: its path and the names of its tags that users
    /// are shown.
    pub fn new(view: &FileView) -> (r: Result<Self, Error>)
        requires
            view.wf(),
        ensures
            match shown_names(view.maps(), view.tid_order(), Seq::<Seq<char>>::empty()) {
                Ok(names) => r matches Ok(f) && f@ == (Record { path: view@.path, tags: names }),
                Err(x) => r matches Err(e) && e@ == x,
            },
    {
        let ids = view.tag_ids();
        proof {
            view.lemma_tids();
        }
        let n = ids.len();
        let mut tags: Vec<String> = Vec::new();
        let mut i: usize = 0;
        let ghost order = view.tid_order();
        assert(order.skip(0) =~= order);
        assert(views(tags@) =~= Seq::<Seq<char>>::empty());
        while i < n
            invariant
                i <= n,
                n == order.len(),
                order == ids.order(),
                order == view.tid_order(),
                ids.wf(),
                view.wf(),
                shown_names(view.maps(), order, Seq::<Seq<char>>::empty()) == shown_names(
                    view.maps(),
                    order.skip(i as int),
                    views(tags@),
                ),
            decreases n - i,
        {
            let tid = *ids.get(i);
            proof {
                assert(order.skip(i as int)[0] == tid);
                assert(order.skip(i as int).drop_first() =~= order.skip(i + 1));
            }
            let tag = match view.tag(tid) {
                Ok(tag) => tag,
                Err(e) => {
                    return Err(Error::Collections(e));
                },
            };
            match crate::app::attr::api::unghost(tag.name()) {
                Some(name) => {
                    let ghost before = tags@;
                    tags.push(name.to_owned());
                    proof {
                        assert(views(tags@) =~= views(before).push(name@));
                    }
                },
                None => {},
            }
            i += 1;
        }
        Ok(SerialFile { path: view.path().to_owned(), tags })
    }

    /// The record as plain text: the path, and the tags on lines of their
    /// own.
    pub fn to_plain(&self) -> (s: String)
        ensures
            s@ == plain(self@),
    {
        let mut out = to_chars(self.path.as_str());
        out.push('\n');
        out.push(' ');
        let lists = crate::app::meta::action::char_lists(&self.tags);
        let mut sep: Vec<char> = Vec::new();
        sep.push('\n');
        sep.push(' ');
        sep.push('*');
        sep.push(' ');
        assert(sep@ =~= seq!['\n', ' ', '*', ' ']);
        let joined = join_chars(&lists, &sep);
        append(&mut out, &joined);
        proof {
            assert(crate::app::meta::config::texts(self.tags@) =~= views(self.tags@));
            assert(out@ =~= plain(self@));
        }
        collect(&out)
    }
}

/// The records of the files with the ids `ids`, added to `acc`. An id that
/// has no file or no tag in the maps is an error.
pub open spec fn records(maps: &Maps, ids: Seq<i64>, acc: Seq<Record>) -> Result<Seq<Record>, Fault>
    decreases ids.len(),
{
    if ids.len() == 0 {
        Ok(acc)
    } else if !maps.has_file(ids[0]) {
        Err(Fault::Collections(Seq::<char>::empty()))
    } else {
        match shown_names(maps, maps.subject(ids[0]).tids, Seq::<Seq<char>>::empty()) {
            Err(f) => Err(f),
            Ok(names) => records(
                maps,
                ids.drop_first(),
                acc.push(Record { path: maps.file_map()[ids[0] as int].path, tags: names }),
            ),
        }
    }
}

/// The records of a result, or the error of asking for them.
pub open spec fn serial(results: Results) -> Result<Seq<Record>, Fault> {
    match results.viewed() {
        Err(f) => Err(f),
        Ok(ids) => records(results.maps()->Some_0, ids, Seq::<Record>::empty()),
    }
}

/// The views of a list of records.
pub open spec fn record_views(list: Seq<SerialFile>) -> Seq<Record> {
    list.map_values(|f: SerialFile| f@)
}

/// The records of the files of a result.
pub fn serialize(results: &Results) -> (r: Result<Vec<SerialFile>, Error>)
    requires
        results.wf(),
    ensures
        match serial(*results) {
            Ok(list) => r matches Ok(v) && record_views(v@) == list,
            Err(f) => r matches Err(e) && e@ == f,
        },
{
    let views = match results.file_view_iter() {
        Ok(views) => views,
        Err(e) => {
            return Err(e);
        },
    };
    let ghost ids = results.shown();
    let ghost maps = results.maps()->Some_0;
    let mut list: Vec<SerialFile> = Vec::new();
    let mut i: usize = 0;
    assert(ids.skip(0) =~= ids);
    assert(record_views(list@) =~= Seq::<Record>::empty());
    while i < views.len()
        invariant
            i <= views@.len(),
            views@.len() == ids.len(),
            results.viewed() == Ok::<Seq<i64>, Fault>(ids),
            maps == results.maps()->Some_0,
            maps.has_files(ids),
            forall|k: int|
                0 <= k < views@.len() ==> (#[trigger] views@[k]).wf() && views@[k]@
                    == maps.file_map()[ids[k] as int] && views@[k].subject() == maps.subject(ids[k])
                    && *views@[k].maps() == *maps,
            records(maps, ids, Seq::<Record>::empty()) == records(
                maps,
                ids.skip(i as int),
                record_views(list@),
            ),
        decreases views@.len() - i,
    {
        let view = &views[i];
        proof {
            assert(views@[i as int].wf());
            assert(ids.skip(i as int)[0] == ids[i as int]);
            assert(ids.skip(i as int).drop_first() =~= ids.skip(i + 1));
            assert(maps.has_file(ids[i as int]));
            view.lemma_tids();
        }
        match SerialFile::new(view) {
            Ok(file) => {
                proof {
                    assert(record_views(list@.push(file)) =~= record_views(list@).push(file@));
                }
                list.push(file);
            },
            Err(e) => {
                return Err(e);
            },
        }
        i += 1;
    }
    Ok(list)
}

/// The records of a list as plain text, each followed by a line feed.
pub open spec fn plain_lines(list: Seq<Record>) -> Seq<char>
    decreases list.len(),
{
    if list.len() == 0 {
        Seq::<char>::empty()
    } else {
        plain_lines(list.drop_last()) + plain(list.last()) + seq!['\n']
    }
}

/// Collects the records of the files as plain text.
pub struct SerializePlain;

impl Collector<Result<String, Error>> for SerializePlain {
    open spec fn needs(&self) -> Forced {
        Forced { mapped: true, filtered: false, piped: false }
    }

    open spec fn collects(&self, results: Results, out: Result<String, Error>) -> bool {
        match serial(results) {
            Ok(list) => out matches Ok(s) && s@ == plain_lines(list),
            Err(f) => out matches Err(e) && e@ == f,
        }
    }

    fn forcings(&self) -> (f: Forcings) {
        Forcings::new().mapped()
    }

    fn collect_results(&self, results: Results) -> (out: Result<String, Error>) {
        let list = match serialize(&results) {
            Ok(list) => list,
            Err(e) => {
                return Err(e);
            },
        };
        let mut out: Vec<char> = Vec::new();
        let mut i: usize = 0;
        let ghost all = record_views(list@);
        assert(all.take(0) =~= Seq::<Record>::empty());
        while i < list.len()
            invariant
                i <= list@.len(),
                all == record_views(list@),
                out@ == plain_lines(all.take(i as int)),
            decreases list@.len() - i,
        {
            let text = list[i].to_plain();
            proof {
                let next = all.take(i as int + 1);
                assert(next.drop_last() =~= all.take(i as int));
                assert(next.last() == list@[i as int]@);
            }
            append_str(&mut out, text.as_str());
            out.push('\n');
            i += 1;
        }
        assert(all.take(i as int) =~= all);
        Ok(collect(&out))
    }
}

/// Collects the records of the files, to be written as YAML.
pub struct SerializeYaml;

impl Collector<Result<Vec<SerialFile>, Error>> for SerializeYaml {
    open spec fn needs(&self) -> Forced {
        Forced { mapped: true, filtered: false, piped: false }
    }

    open spec fn collects(&self, results: Results, out: Result<Vec<SerialFile>, Error>) -> bool {
        match serial(results) {
            Ok(list) => out matches Ok(v) && record_views(v@) == list,
            Err(f) => out matches Err(e) && e@ == f,
        }
    }

    fn forcings(&self) -> (f: Forcings) {
        Forcings::new().mapped()
    }

    fn collect_results(&self, results: Results) -> (out: Result<Vec<SerialFile>, Error>) {
        serialize(&results)
    }
}

/// Collects the records of the files, to be written as JSON.
pub struct SerializeJson;

impl Collector<Result<Vec<SerialFile>, Error>> for SerializeJson {
    open spec fn needs(&self) -> Forced {
        Forced { mapped: true, filtered: false, piped: false }
    }

    open spec fn collects(&self, results: Results, out: Result<Vec<SerialFile>, Error>) -> bool {
        match serial(results) {
            Ok(list) => out matches Ok(v) && record_views(v@) == list,
            Err(f) => out matches Err(e) && e@ == f,
        }
    }

    fn forcings(&self) -> (f: Forcings) {
        Forcings::new().mapped()
    }

    fn collect_results(&self, results: Results) -> (out: Result<Vec<SerialFile>, Error>) {
        serialize(&results)
    }
}

} // verus!
