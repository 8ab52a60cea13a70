//! The states of a query, from its start to its results, and the steps
//! between them.
use crate::app::data::error as data;
use crate::app::data::query::api;
use crate::app::data::query::api::{associates, firsts, inconsistent, seconds};
use crate::app::data::query::filter::{fed, kept, piped, DslFilter, Filter, PipeFilter};
use crate::app::data::query::filter::{lemma_kept, lemma_piped, read_output};
use crate::app::data::query::forcings::{Forced, Forcings};
use crate::app::data::query::maps::{
    borrowed_files,
    borrowed_tags,
    file_rows,
    file_views,
    ordered_uids,
    tag_rows,
    tag_views,
    Columnar,
    Columns,
    FileView,
    ManyToManyIds,
    Maps,
    OwnedMaps,
    TagView,
    Viewable,
};
use crate::app::meta::config;
use crate::dsl::filter::dsl::commands_of;
use crate::dsl::filter::Dsl as FilterDsl;
use crate::dsl::query::dsl::{compiled, Predicate};
use crate::dsl::query::Dsl as QueryDsl;
use crate::expression::error as expression;
use crate::expression::expression::{
    compiled_opt,
    raw_opt,
    text_opt,
    tree_opt,
    wrapped_opt,
    Expression,
};
use crate::expression::parser::Tree;
use crate::model::file::{self, FileRow};
use crate::model::tag::{self, TagRow};
use crate::model::{FCol, Fid, Ids, TCol, Tid};
use crate::util::error::{Error, Fault};
use crate::util::table::{views, VecMap};
use vstd::prelude::*;

verus! {

/// The associations that a query returned.
pub struct Raw {
    pub data: Vec<Ids>,
}

impl Raw {
    /// The state of a query whose associations came.
    pub fn from_query(rows: Vec<Ids>) -> (raw: Self)
        ensures
            raw.data == rows,
    {
        Raw { data: rows }
    }
}

/// The rows of a result that needs no maps.
pub struct Unassociated {
    pub cols: Columns,
}

impl Unassociated {
    /// The state of a query whose rows came. There is to be one row for each
    /// file and one for each tag of the associations.
    pub fn from_raw(raw: Raw, fcol: Vec<FCol>, tcol: Vec<TCol>) -> (r: Result<Self, data::Error>)
        ensures
            match r {
                Ok(s) => fcol@.len() == firsts(raw.data@).len() && tcol@.len() == seconds(
                    raw.data@,
                ).len() && s.cols.file_col() == file_rows(fcol@) && s.cols.tag_col() == tag_rows(
                    tcol@,
                ) && s.cols.pair_col() == raw.data@,
                Err(e) => !(fcol@.len() == firsts(raw.data@).len() && tcol@.len() == seconds(
                    raw.data@,
                ).len()) && e@ == inconsistent(),
            },
    {
        match api::query_unassociated(raw.data, fcol, tcol) {
            Ok(cols) => Ok(Unassociated { cols }),
            Err(e) => Err(e),
        }
    }
}

impl Columnar for Unassociated {
    open spec fn file_col(&self) -> Seq<FileRow> {
        self.cols.file_col()
    }

    open spec fn tag_col(&self) -> Seq<TagRow> {
        self.cols.tag_col()
    }

    open spec fn pair_col(&self) -> Seq<Ids> {
        self.cols.pair_col()
    }

    fn files(&self) -> (f: &Vec<FCol>) {
        self.cols.files()
    }

    fn tags(&self) -> (t: &Vec<TCol>) {
        self.cols.tags()
    }

    fn filetags(&self) -> (m: &Vec<Ids>) {
        self.cols.filetags()
    }
}

/// The rows of a result with the map of its associations.
pub struct Unmapped {
    pub cols: Columns,
    pub asso: ManyToManyIds,
}

impl Unmapped {
    /// The map holds the associations of the rows.
    pub open spec fn wf(&self) -> bool {
        &&& self.asso.wf()
        &&& self.asso.consistent()
        &&& associates(&self.asso, self.cols.pair_col())
    }

    /// The state of a query whose rows came. There is to be one row for each
    /// file and one for each tag of the associations.
    pub fn from_raw(raw: Raw, fcol: Vec<FCol>, tcol: Vec<TCol>) -> (r: Result<Self, data::Error>)
        ensures
            match r {
                Ok(s) => fcol@.len() == firsts(raw.data@).len() && tcol@.len() == seconds(
                    raw.data@,
                ).len() && s.cols.file_col() == file_rows(fcol@) && s.cols.tag_col() == tag_rows(
                    tcol@,
                ) && s.cols.pair_col() == raw.data@ && s.wf(),
                Err(e) => !(fcol@.len() == firsts(raw.data@).len() && tcol@.len() == seconds(
                    raw.data@,
                ).len()) && e@ == inconsistent(),
            },
    {
        match api::query_associated(raw.data, fcol, tcol) {
            Ok((cols, asso)) => Ok(Unmapped { cols, asso }),
            Err(e) => Err(e),
        }
    }
}

impl Columnar for Unmapped {
    open spec fn file_col(&self) -> Seq<FileRow> {
        self.cols.file_col()
    }

    open spec fn tag_col(&self) -> Seq<TagRow> {
        self.cols.tag_col()
    }

    open spec fn pair_col(&self) -> Seq<Ids> {
        self.cols.pair_col()
    }

    fn files(&self) -> (f: &Vec<FCol>) {
        self.cols.files()
    }

    fn tags(&self) -> (t: &Vec<TCol>) {
        self.cols.tags()
    }

    fn filetags(&self) -> (m: &Vec<Ids>) {
        self.cols.filetags()
    }
}

/// The rows of a result with the maps that index them.
pub struct Mapped {
    pub maps: OwnedMaps,
}

impl Mapped {
    /// Indexes the rows.
    pub fn from_rows(cols: Unmapped) -> (m: Self)
        requires
            cols.wf(),
        ensures
            m.maps.wf(),
            *m.maps.columns() == cols.cols,
            m.maps.maps().tags_of() == cols.asso.lefts(),
            m.maps.maps().files_of() == cols.asso.rights(),
    {
        Mapped { maps: OwnedMaps::new(cols.cols, cols.asso) }
    }
}

impl Viewable for Mapped {
    open spec fn shown_maps(&self) -> &Maps {
        self.maps.maps()
    }

    open spec fn shown_files(&self) -> Seq<i64> {
        self.maps.maps().file_order()
    }

    open spec fn shown_tags(&self) -> Seq<i64> {
        self.maps.maps().tag_order()
    }

    open spec fn viewable(&self) -> bool {
        self.maps.wf()
    }

    fn maps(&self) -> (m: &Maps) {
        assert(self.viewable());
        proof {
            self.maps.lemma_wf();
        }
        let m = self.maps.inner();
        assert(*m == *self.shown_maps());
        m
    }

    fn tag_view(&self) -> (ids: Vec<Tid>) {
        assert(self.viewable());
        assert(self.maps.viewable());
        let ids = self.maps.tag_view();
        assert(ids@ == self.maps.shown_tags());
        assert(ids@ == self.shown_tags());
        ids
    }

    fn file_view(&self) -> (ids: Vec<Fid>) {
        assert(self.viewable());
        assert(self.maps.viewable());
        let ids = self.maps.file_view();
        assert(ids@ == self.maps.shown_files());
        assert(ids@ == self.shown_files());
        ids
    }
}

/// Whether every id of a list is the id of a file of the maps.
pub open spec fn within(maps: &Maps, fids: Seq<i64>) -> bool {
    forall|i: int| 0 <= i < fids.len() ==> maps.file_order().contains(#[trigger] fids[i])
}

/// The ids of the tags of the maps, as what a filtered or piped result
/// shows of them.
pub open spec fn all_tags(maps: &OwnedMaps) -> Seq<i64> {
    maps.maps().tag_order()
}

/// A mapped result and the ids of the files that passed its filter.
pub struct Filtered {
    pub maps: OwnedMaps,
    pub fids: Vec<Fid>,
}

/// The pipeline has no filter.
pub open spec fn no_filter() -> Fault {
    Fault::Data(data::Fault::WrongState { state: "mapped (no filter)"@, operation: "filter"@ })
}

/// The pipeline has no pipe, after a filter.
pub open spec fn no_pipe_filtered() -> Fault {
    Fault::Data(data::Fault::WrongState { state: "filtered (no pipe)"@, operation: "pipe"@ })
}

/// The pipeline has no pipe, after the maps.
pub open spec fn no_pipe_mapped() -> Fault {
    Fault::Data(data::Fault::WrongState { state: "mapped (no pipe)"@, operation: "pipe"@ })
}

impl Filtered {
    /// The maps are well formed, and the ids are ids of their files.
    pub open spec fn wf(&self) -> bool {
        self.maps.wf() && within(self.maps.maps(), self.fids@)
    }

    /// Filters the files of a mapped result by the filter of the pipeline,
    /// given the outcomes of the shell commands that the filter names.
    pub fn from_mapped(mapped: Mapped, dbq: &DatabaseQuery, outcomes: &VecMap<String, bool>) -> (r:
        Result<Self, Error>)
        requires
            mapped.maps.wf(),
            outcomes.wf(),
        ensures
            match dbq.pipeline@.filter {
                None => r matches Err(e) && e@ == no_filter(),
                Some(tree) => match kept(
                    mapped.maps.maps(),
                    outcomes@,
                    tree,
                    mapped.maps.maps().file_order(),
                    Seq::<i64>::empty(),
                ) {
                    Ok(keep) => r matches Ok(f) && f.maps == mapped.maps && f.fids@ == keep
                        && f.wf(),
                    Err(x) => r matches Err(e) && e@ == x,
                },
            },
    {
        let ast = match dbq.pipeline.get_filter() {
            Some(e) => e.as_ast(),
            None => {
                return Err(
                    Error::Data(
                        data::Error::WrongState {
                            state: "mapped (no filter)".to_owned(),
                            operation: "filter".to_owned(),
                        },
                    ),
                );
            },
        };
        proof {
            mapped.maps.lemma_wf();
            mapped.maps.maps().lemma_wf();
            lemma_kept(
                mapped.maps.maps(),
                outcomes@,
                ast@,
                mapped.maps.maps().file_order(),
                Seq::<i64>::empty(),
            );
        }
        let ids = ordered_uids(mapped.maps.fids());
        let mut filter = DslFilter::new(mapped.maps.inner(), ast, outcomes);
        let fids = match filter.filter(ids) {
            Ok(fids) => fids,
            Err(e) => {
                return Err(e);
            },
        };
        let mut fids = fids;
        crate::util::table::shrink(&mut fids);
        proof {
            assert forall|i: int| 0 <= i < fids@.len() implies mapped.maps.maps().file_order().contains(
                #[trigger] fids@[i],
            ) by {
                assert(fids@.contains(fids@[i]));
            }
        }
        Ok(Filtered { maps: mapped.maps, fids })
    }
}

impl Viewable for Filtered {
    open spec fn shown_maps(&self) -> &Maps {
        self.maps.maps()
    }

    open spec fn shown_files(&self) -> Seq<i64> {
        self.fids@
    }

    open spec fn shown_tags(&self) -> Seq<i64> {
        self.maps.maps().tag_order()
    }

    open spec fn viewable(&self) -> bool {
        self.maps.wf()
    }

    fn maps(&self) -> (m: &Maps) {
        assert(self.viewable());
        proof {
            self.maps.lemma_wf();
        }
        let m = self.maps.inner();
        assert(*m == *self.shown_maps());
        m
    }

    fn tag_view(&self) -> (ids: Vec<Tid>) {
        assert(self.viewable());
        assert(self.maps.viewable());
        let ids = self.maps.tag_view();
        assert(ids@ == self.maps.shown_tags());
        assert(ids@ == self.shown_tags());
        ids
    }

    fn file_view(&self) -> (ids: Vec<Fid>) {
        let ids = copy_ids(&self.fids);
        assert(ids@ == self.shown_files());
        ids
    }
}

/// A copy of a list of ids.
pub fn copy_ids(ids: &Vec<i64>) -> (r: Vec<i64>)
    ensures
        r@ == ids@,
{
    let mut r: Vec<i64> = Vec::new();
    let mut i: usize = 0;
    while i < ids.len()
        invariant
            i <= ids@.len(),
            r@ == ids@.take(i as int),
        decreases ids@.len() - i,
    {
        r.push(ids[i]);
        assert(r@ =~= ids@.take(i as int + 1));
        i += 1;
    }
    assert(ids@.take(i as int) =~= ids@);
    r
}

/// A mapped result and the ids of the files that came out of its pipe.
pub struct Piped {
    pub maps: OwnedMaps,
    pub fids: Vec<Fid>,
}

impl Piped {
    /// The maps are well formed, and the ids are ids of their files.
    pub open spec fn wf(&self) -> bool {
        self.maps.wf() && within(self.maps.maps(), self.fids@)
    }

    /// The files that the pipe of the pipeline printed the paths of, after a
    /// filter.
    pub fn from_filtered(filtered: Filtered, dbq: &DatabaseQuery, output: &str) -> (r: Result<
        Self,
        Error,
    >)
        requires
            filtered.maps.wf(),
        ensures
            match dbq.pipeline@.pipe {
                None => r matches Err(e) && e@ == no_pipe_filtered(),
                Some(_) => match piped(
                    filtered.maps.maps(),
                    crate::util::string::split(output@, seq!['\n']),
                    Seq::<i64>::empty(),
                ) {
                    Ok(keep) => r matches Ok(p) && p.maps == filtered.maps && p.fids@ == keep
                        && p.wf(),
                    Err(x) => r matches Err(e) && e@ == x,
                },
            },
    {
        match dbq.pipeline.get_pipe() {
            Some(_) => {},
            None => {
                return Err(
                    Error::Data(
                        data::Error::WrongState {
                            state: "filtered (no pipe)".to_owned(),
                            operation: "pipe".to_owned(),
                        },
                    ),
                );
            },
        }
        Self::from_output(filtered.maps, output)
    }

    /// The files that the pipe of the pipeline printed the paths of.
    pub fn from_mapped(mapped: Mapped, dbq: &DatabaseQuery, output: &str) -> (r: Result<
        Self,
        Error,
    >)
        requires
            mapped.maps.wf(),
        ensures
            match dbq.pipeline@.pipe {
                None => r matches Err(e) && e@ == no_pipe_mapped(),
                Some(_) => match piped(
                    mapped.maps.maps(),
                    crate::util::string::split(output@, seq!['\n']),
                    Seq::<i64>::empty(),
                ) {
                    Ok(keep) => r matches Ok(p) && p.maps == mapped.maps && p.fids@ == keep
                        && p.wf(),
                    Err(x) => r matches Err(e) && e@ == x,
                },
            },
    {
        match dbq.pipeline.get_pipe() {
            Some(_) => {},
            None => {
                return Err(
                    Error::Data(
                        data::Error::WrongState {
                            state: "mapped (no pipe)".to_owned(),
                            operation: "pipe".to_owned(),
                        },
                    ),
                );
            },
        }
        Self::from_output(mapped.maps, output)
    }

    /// The files of the maps that a pipe printed the paths of.
    fn from_output(maps: OwnedMaps, output: &str) -> (r: Result<Self, Error>)
        requires
            maps.wf(),
        ensures
            match piped(
                maps.maps(),
                crate::util::string::split(output@, seq!['\n']),
                Seq::<i64>::empty(),
            ) {
                Ok(keep) => r matches Ok(p) && p.maps == maps && p.fids@ == keep && p.wf(),
                Err(x) => r matches Err(e) && e@ == x,
            },
    {
        proof {
            maps.lemma_wf();
            lemma_piped(
                maps.maps(),
                crate::util::string::split(output@, seq!['\n']),
                Seq::<i64>::empty(),
            );
        }
        let fids = match read_output(maps.inner(), output) {
            Ok(fids) => fids,
            Err(e) => {
                return Err(e);
            },
        };
        let mut fids = fids;
        crate::util::table::shrink(&mut fids);
        proof {
            assert forall|i: int| 0 <= i < fids@.len() implies maps.maps().file_order().contains(
                #[trigger] fids@[i],
            ) by {
                assert(fids@.contains(fids@[i]));
            }
        }
        Ok(Piped { maps, fids })
    }
}

impl Viewable for Piped {
    open spec fn shown_maps(&self) -> &Maps {
        self.maps.maps()
    }

    open spec fn shown_files(&self) -> Seq<i64> {
        self.fids@
    }

    open spec fn shown_tags(&self) -> Seq<i64> {
        self.maps.maps().tag_order()
    }

    open spec fn viewable(&self) -> bool {
        self.maps.wf()
    }

    fn maps(&self) -> (m: &Maps) {
        assert(self.viewable());
        proof {
            self.maps.lemma_wf();
        }
        let m = self.maps.inner();
        assert(*m == *self.shown_maps());
        m
    }

    fn tag_view(&self) -> (ids: Vec<Tid>) {
        assert(self.viewable());
        assert(self.maps.viewable());
        let ids = self.maps.tag_view();
        assert(ids@ == self.maps.shown_tags());
        assert(ids@ == self.shown_tags());
        ids
    }

    fn file_view(&self) -> (ids: Vec<Fid>) {
        let ids = copy_ids(&self.fids);
        assert(ids@ == self.shown_files());
        ids
    }
}

/// An entire pipeline: what selects in the store, what filters the
/// selection, and the shell command that it is piped through.
#[derive(Debug)]
pub struct Pipeline {
    query: Option<Expression>,
    filter: Option<Expression>,
    pipe: Option<String>,
}

/// A [`Pipeline`] as plain values.
pub struct Stages {
    pub query: Option<Tree>,
    pub filter: Option<Tree>,
    pub pipe: Option<Seq<char>>,
}

impl View for Pipeline {
    type V = Stages;

    closed spec fn view(&self) -> Stages {
        Stages {
            query: tree_opt(self.query),
            filter: tree_opt(self.filter),
            pipe: text_opt(self.pipe),
        }
    }
}

/// The least that a pipeline forces: a filter forces `Filtered`, a pipe
/// forces `Piped`, and each of them `Mapped`.
pub open spec fn minimum(stages: Stages) -> Forced {
    Forced {
        mapped: stages.filter is Some || stages.pipe is Some,
        filtered: stages.filter is Some,
        piped: stages.pipe is Some,
    }
}

impl Pipeline {
    /// The expression that selects in the store, as it was given.
    pub closed spec fn query_held(&self) -> Option<Expression> {
        self.query
    }

    /// The expression that filters the selection, as it was given.
    pub closed spec fn filter_held(&self) -> Option<Expression> {
        self.filter
    }

    /// The shell command that the selection is piped through, as it was
    /// given.
    pub closed spec fn pipe_held(&self) -> Option<String> {
        self.pipe
    }

    /// A pipeline of compiled expressions: it holds what it is given.
    pub fn new(query: Option<Expression>, filter: Option<Expression>, pipe: Option<String>) -> (p:
        Self)
        ensures
            p@ == (Stages {
                query: tree_opt(query),
                filter: tree_opt(filter),
                pipe: text_opt(pipe),
            }),
            p.query_held() == query,
            p.filter_held() == filter,
            p.pipe_held() == pipe,
    {
        Pipeline { query, filter, pipe }
    }

    /// Compiles the texts of a pipeline.
    pub fn from_pipeline(pipeline: config::PipelineBuf) -> (r: Result<Self, expression::Error>)
        ensures
            match (
                compiled_opt(text_opt(pipeline.query)),
                compiled_opt(text_opt(pipeline.filter)),
            ) {
                (Ok(q), Ok(f)) => r matches Ok(p) && p@ == (Stages {
                    query: q,
                    filter: f,
                    pipe: text_opt(pipeline.pipe),
                }) && raw_opt(p.query_held()) == wrapped_opt(text_opt(pipeline.query)) && raw_opt(
                    p.filter_held(),
                ) == wrapped_opt(text_opt(pipeline.filter)) && p.pipe_held() == pipeline.pipe,
                (Err(e), _) => r matches Err(x) && x@ == e,
                (Ok(_), Err(e)) => r matches Err(x) && x@ == e,
            },
    {
        Self::from_strings(pipeline.query, pipeline.filter, pipeline.pipe)
    }

    /// Compiles the texts of a query and of a filter. The error of the query
    /// comes before that of the filter.
    pub fn from_strings(query: Option<String>, filter: Option<String>, pipe: Option<String>) -> (r:
        Result<Self, expression::Error>)
        ensures
            match (compiled_opt(text_opt(query)), compiled_opt(text_opt(filter))) {
                (Ok(q), Ok(f)) => r matches Ok(p) && p@ == (Stages {
                    query: q,
                    filter: f,
                    pipe: text_opt(pipe),
                }) && raw_opt(p.query_held()) == wrapped_opt(text_opt(query)) && raw_opt(
                    p.filter_held(),
                ) == wrapped_opt(text_opt(filter)) && p.pipe_held() == pipe,
                (Err(e), _) => r matches Err(x) && x@ == e,
                (Ok(_), Err(e)) => r matches Err(x) && x@ == e,
            },
    {
        match Expression::compile(query, filter) {
            Ok((query, filter)) => Ok(Pipeline { query, filter, pipe }),
            Err(e) => Err(e),
        }
    }

    /// The least that the pipeline forces.
    pub fn forcings(&self) -> (f: Forcings)
        ensures
            f.wf(),
            f@ == minimum(self@),
    {
        let mut f = Forcings::new();
        if self.filter.is_some() {
            f = f.mapped().filtered();
        }
        if self.pipe.is_some() {
            f = f.mapped().piped();
        }
        f
    }

    /// The expression that selects in the store.
    pub fn get_query(&self) -> (q: &Option<Expression>)
        ensures
            *q == self.query_held(),
            tree_opt(*q) == self@.query,
    {
        &self.query
    }

    /// The expression that filters the selection.
    pub fn get_filter(&self) -> (f: &Option<Expression>)
        ensures
            *f == self.filter_held(),
            tree_opt(*f) == self@.filter,
    {
        &self.filter
    }

    /// The shell command that the selection is piped through.
    pub fn get_pipe(&self) -> (p: &Option<String>)
        ensures
            *p == self.pipe_held(),
            text_opt(*p) == self@.pipe,
    {
        &self.pipe
    }

    /// A query of this pipeline that is forced to reach what `forcings` and
    /// the pipeline itself ask for.
    pub fn forced_query<'e>(&'e self, forcings: Forcings) -> (q: Query<'e>)
        requires
            forcings.wf(),
        ensures
            q.wf(),
            q.state() == State::Incomplete(Progress::Init),
            q.stage() == Stage::Init,
            !q.done(),
            *q.pipeline() == *self,
            q.forcings() == joined(forcings@, minimum(self@)),
    {
        Query::new(self, forcings)
    }

    /// A query of this pipeline that is forced to reach only what the
    /// pipeline itself asks for.
    pub fn query<'e>(&'e self) -> (q: Query<'e>)
        ensures
            q.wf(),
            q.state() == State::Incomplete(Progress::Init),
            q.stage() == Stage::Init,
            !q.done(),
            *q.pipeline() == *self,
            q.forcings() == minimum(self@),
    {
        Query::new(self, Forcings::new())
    }
}

/// The forcings of either of two sets.
pub open spec fn joined(a: Forced, b: Forced) -> Forced {
    Forced {
        mapped: a.mapped || b.mapped,
        filtered: a.filtered || b.filtered,
        piped: a.piped || b.piped,
    }
}

/// A pipeline with what it is forced to reach.
pub struct DatabaseQuery<'e> {
    pub pipeline: &'e Pipeline,
    pub forcings: Forcings,
}

/// The stages of a query.
#[derive(Debug, Clone, Copy, PartialEq, Eq, Structural)]
pub enum Stage {
    Init,
    Raw,
    Unassociated,
    Unmapped,
    Mapped,
    Filtered,
    Piped,
}

/// What a query gives when it is done. Which shape it has depends on what
/// was forced.
pub enum Results {
    Unmapped(Unmapped),
    Unassociated(Unassociated),
    Mapped(Mapped),
    Filtered(Filtered),
    Piped(Piped),
}

/// The files of the maps with the ids `ids`, each as a value of its own; an
/// error where the maps do not hold one of them.
pub fn borrow_views(maps: &Maps, ids: &Vec<Fid>) -> (r: Result<Vec<file::Borrow>, Error>)
    requires
        maps.wf(),
    ensures
        match r {
            Ok(files) => files@.len() == ids@.len() && maps.has_files(ids@) && forall|i: int|
                0 <= i < ids@.len() ==> (#[trigger] files@[i])@ == maps.file_map()[ids@[i] as int]
                    && maps.has_file(ids@[i]),
            Err(e) => e@ == Fault::Collections(Seq::<char>::empty()) && !maps.has_files(ids@),
        },
{
    let views = match file_views(maps, ids) {
        Ok(views) => views,
        Err(e) => {
            return Err(Error::Collections(e));
        },
    };
    let mut files: Vec<file::Borrow> = Vec::new();
    let mut i: usize = 0;
    while i < views.len()
        invariant
            i <= views@.len(),
            views@.len() == ids@.len(),
            files@.len() == i,
            forall|k: int|
                0 <= k < ids@.len() ==> (#[trigger] views@[k]).wf() && maps.has_file(ids@[k])
                    && views@[k]@ == maps.file_map()[ids@[k] as int],
            forall|k: int|
                0 <= k < i ==> (#[trigger] files@[k])@ == maps.file_map()[ids@[k] as int]
                    && maps.has_file(ids@[k]),
        decreases views@.len() - i,
    {
        let b = views[i].as_borrow();
        assert(views@[i as int].wf());
        files.push(b);
        i += 1;
    }
    Ok(files)
}

/// The tags of the maps with the ids `ids`, each as a value of its own; an
/// error where the maps do not hold one of them.
pub fn borrow_tag_views(maps: &Maps, ids: &Vec<Tid>) -> (r: Result<Vec<tag::Borrow>, Error>)
    requires
        maps.wf(),
    ensures
        match r {
            Ok(tags) => tags@.len() == ids@.len() && maps.has_tags(ids@) && forall|i: int|
                0 <= i < ids@.len() ==> (#[trigger] tags@[i])@ == maps.tag_map()[ids@[i] as int]
                    && maps.has_tag(ids@[i]),
            Err(e) => e@ == Fault::Collections(Seq::<char>::empty()) && !maps.has_tags(ids@),
        },
{
    let views = match tag_views(maps, ids) {
        Ok(views) => views,
        Err(e) => {
            return Err(Error::Collections(e));
        },
    };
    let mut tags: Vec<tag::Borrow> = Vec::new();
    let mut i: usize = 0;
    while i < views.len()
        invariant
            i <= views@.len(),
            views@.len() == ids@.len(),
            tags@.len() == i,
            forall|k: int|
                0 <= k < ids@.len() ==> (#[trigger] views@[k]).wf() && maps.has_tag(ids@[k])
                    && views@[k]@ == maps.tag_map()[ids@[k] as int],
            forall|k: int|
                0 <= k < i ==> (#[trigger] tags@[k])@ == maps.tag_map()[ids@[k] as int]
                    && maps.has_tag(ids@[k]),
        decreases views@.len() - i,
    {
        let b = views[i].as_borrow();
        assert(views@[i as int].wf());
        tags.push(b);
        i += 1;
    }
    Ok(tags)
}

/// What a result that is asked for what it does not have reports.
pub open spec fn wrong_state(state: Seq<char>, operation: Seq<char>) -> Fault {
    Fault::Data(data::Fault::WrongState { state, operation })
}

impl Results {
    /// The parts of the result are well formed.
    pub open spec fn wf(&self) -> bool {
        match self {
            Results::Unassociated(_) => true,
            Results::Unmapped(inner) => inner.wf(),
            Results::Mapped(inner) => inner.maps.wf(),
            Results::Filtered(inner) => inner.wf(),
            Results::Piped(inner) => inner.wf(),
        }
    }

    /// The stage that the result was reached at.
    pub open spec fn stage(&self) -> Stage {
        match self {
            Results::Unassociated(_) => Stage::Unassociated,
            Results::Unmapped(_) => Stage::Unmapped,
            Results::Mapped(_) => Stage::Mapped,
            Results::Filtered(_) => Stage::Filtered,
            Results::Piped(_) => Stage::Piped,
        }
    }

    /// The maps of a result that has some.
    pub open spec fn maps(&self) -> Option<&Maps> {
        match self {
            Results::Unassociated(_) => None,
            Results::Unmapped(_) => None,
            Results::Mapped(inner) => Some(inner.maps.maps()),
            Results::Filtered(inner) => Some(inner.maps.maps()),
            Results::Piped(inner) => Some(inner.maps.maps()),
        }
    }

    /// The ids of the files that a result with maps shows.
    pub open spec fn shown(&self) -> Seq<i64> {
        match self {
            Results::Unassociated(_) => Seq::<i64>::empty(),
            Results::Unmapped(_) => Seq::<i64>::empty(),
            Results::Mapped(inner) => inner.maps.maps().file_order(),
            Results::Filtered(inner) => inner.fids@,
            Results::Piped(inner) => inner.fids@,
        }
    }

    /// The rows of the files of the result, or the error of asking for them.
    pub open spec fn rows(&self) -> Result<Seq<FileRow>, Fault> {
        match self {
            Results::Unassociated(inner) => Ok(inner.cols.file_col()),
            Results::Unmapped(inner) => Ok(inner.cols.file_col()),
            _ => if self.maps()->Some_0.has_files(self.shown()) {
                Ok(
                    Seq::new(
                        self.shown().len(),
                        |i: int| self.maps()->Some_0.file_map()[self.shown()[i] as int],
                    ),
                )
            } else {
                Err(Fault::Collections(Seq::<char>::empty()))
            },
        }
    }

    /// The rows of the tags of the result, or the error of asking for them.
    pub open spec fn tags(&self) -> Result<Seq<TagRow>, Fault> {
        match self {
            Results::Unassociated(inner) => Ok(inner.cols.tag_col()),
            Results::Unmapped(inner) => Ok(inner.cols.tag_col()),
            Results::Mapped(inner) => if inner.maps.maps().has_tags(inner.maps.maps().tag_order()) {
                Ok(
                    Seq::new(
                        inner.maps.maps().tag_order().len(),
                        |i: int|
                            inner.maps.maps().tag_map()[inner.maps.maps().tag_order()[i] as int],
                    ),
                )
            } else {
                Err(Fault::Collections(Seq::<char>::empty()))
            },
            Results::Filtered(_) => Err(wrong_state("Filtered"@, "tag_iter()"@)),
            Results::Piped(_) => Err(wrong_state("Piped"@, "tag_iter()"@)),
        }
    }

    /// The ids of the files that the result has views of, or the error of
    /// asking for them.
    pub open spec fn viewed(&self) -> Result<Seq<i64>, Fault> {
        match self {
            Results::Mapped(_) | Results::Filtered(_) => if self.maps()->Some_0.has_files(
                self.shown(),
            ) {
                Ok(self.shown())
            } else {
                Err(Fault::Collections(Seq::<char>::empty()))
            },
            Results::Unassociated(_) => Err(wrong_state("Unassociated"@, "file_view_iter()"@)),
            Results::Unmapped(_) => Err(wrong_state("Unmapped"@, "file_view_iter()"@)),
            Results::Piped(_) => Err(wrong_state("Piped"@, "file_view_iter()"@)),
        }
    }

    /// The maps of a result that has some.
    pub fn maps_ref(&self) -> (m: Option<&Maps>)
        requires
            self.wf(),
        ensures
            m == self.maps(),
            m matches Some(maps) ==> maps.wf(),
    {
        match self {
            Results::Mapped(inner) => Some(Viewable::maps(inner)),
            Results::Filtered(inner) => Some(Viewable::maps(inner)),
            Results::Piped(inner) => Some(Viewable::maps(inner)),
            _ => None,
        }
    }

    /// The name of the shape of the result.
    pub fn name(&self) -> (n: &'static str)
        ensures
            n@ == match self {
                Results::Unassociated(_) => "Unassociated"@,
                Results::Unmapped(_) => "Unmapped"@,
                Results::Mapped(_) => "Mapped"@,
                Results::Filtered(_) => "Filtered"@,
                Results::Piped(_) => "Piped"@,
            },
    {
        match self {
            Results::Unassociated(_) => "Unassociated",
            Results::Unmapped(_) => "Unmapped",
            Results::Mapped(_) => "Mapped",
            Results::Filtered(_) => "Filtered",
            Results::Piped(_) => "Piped",
        }
    }

    /// The number of rows: the number of files of the rows or of the maps.
    pub fn row_count(&self) -> (n: usize)
        requires
            self.wf(),
        ensures
            n == self.files_len(),
    {
        self.file_count()
    }

    /// The number of files of the rows or of the maps.
    pub open spec fn files_len(&self) -> nat {
        match self {
            Results::Unassociated(inner) => inner.cols.file_col().len(),
            Results::Unmapped(inner) => inner.cols.file_col().len(),
            Results::Mapped(inner) => inner.maps.maps().file_order().len(),
            Results::Filtered(inner) => inner.maps.maps().file_order().len(),
            Results::Piped(inner) => inner.maps.maps().file_order().len(),
        }
    }

    /// The number of files of the rows or of the maps.
    pub fn file_count(&self) -> (n: usize)
        requires
            self.wf(),
        ensures
            n == self.files_len(),
    {
        match self {
            Results::Unassociated(inner) => Columnar::file_count(inner),
            Results::Unmapped(inner) => Columnar::file_count(inner),
            Results::Mapped(inner) => Viewable::file_count(inner),
            Results::Filtered(inner) => Viewable::file_count(inner),
            Results::Piped(inner) => Viewable::file_count(inner),
        }
    }

    /// The files of the result, each as a value of its own.
    pub fn file_iter(&self) -> (r: Result<Vec<file::Borrow>, Error>)
        requires
            self.wf(),
        ensures
            match self.rows() {
                Ok(rows) => r matches Ok(files) && borrowed_files(files@) == rows,
                Err(f) => r matches Err(e) && e@ == f,
            },
            match self {
                Results::Unassociated(inner) => r matches Ok(files) && borrowed_files(files@)
                    == inner.cols.file_col(),
                Results::Unmapped(inner) => r matches Ok(files) && borrowed_files(files@)
                    == inner.cols.file_col(),
                _ => match r {
                    Ok(files) => files@.len() == self.shown().len() && forall|i: int|
                        0 <= i < files@.len() ==> (#[trigger] files@[i])@
                            == self.maps()->Some_0.file_map()[self.shown()[i] as int],
                    Err(e) => e@ == Fault::Collections(Seq::<char>::empty())
                        && !self.maps()->Some_0.has_files(self.shown()),
                },
            },
    {
        let r = match self {
            Results::Unassociated(inner) => Ok(Columnar::file_iter(inner)),
            Results::Unmapped(inner) => Ok(Columnar::file_iter(inner)),
            Results::Mapped(inner) => borrow_views(inner.maps(), &inner.file_view()),
            Results::Filtered(inner) => borrow_views(inner.maps(), &inner.file_view()),
            Results::Piped(inner) => borrow_views(inner.maps(), &inner.file_view()),
        };
        proof {
            if let Ok(files) = &r {
                if let Ok(rows) = self.rows() {
                    assert(borrowed_files(files@) =~= rows);
                }
            }
        }
        r
    }

    /// The tags of the result, each as a value of its own. A filtered or
    /// piped result has none to give.
    pub fn tag_iter(&self) -> (r: Result<Vec<tag::Borrow>, Error>)
        requires
            self.wf(),
        ensures
            match self.tags() {
                Ok(rows) => r matches Ok(tags) && borrowed_tags(tags@) == rows,
                Err(f) => r matches Err(e) && e@ == f,
            },
            match self {
                Results::Unassociated(inner) => r matches Ok(tags) && borrowed_tags(tags@)
                    == inner.cols.tag_col(),
                Results::Unmapped(inner) => r matches Ok(tags) && borrowed_tags(tags@)
                    == inner.cols.tag_col(),
                Results::Mapped(inner) => match r {
                    Ok(tags) => tags@.len() == inner.maps.maps().tag_order().len() && forall|
                        i: int,
                    |
                        0 <= i < tags@.len() ==> (#[trigger] tags@[i])@
                            == inner.maps.maps().tag_map()[inner.maps.maps().tag_order()[i] as int],
                    Err(e) => e@ == Fault::Collections(Seq::<char>::empty()),
                },
                Results::Filtered(_) => r matches Err(e) && e@ == wrong_state(
                    "Filtered"@,
                    "tag_iter()"@,
                ),
                Results::Piped(_) => r matches Err(e) && e@ == wrong_state(
                    "Piped"@,
                    "tag_iter()"@,
                ),
            },
    {
        let r = match self {
            Results::Unassociated(inner) => Ok(Columnar::tag_iter(inner)),
            Results::Unmapped(inner) => Ok(Columnar::tag_iter(inner)),
            Results::Mapped(inner) => borrow_tag_views(inner.maps(), &inner.tag_view()),
            _ => Err(
                Error::Data(
                    data::Error::WrongState {
                        state: self.name().to_owned(),
                        operation: "tag_iter()".to_owned(),
                    },
                ),
            ),
        };
        proof {
            if let Ok(tags) = &r {
                if let Ok(rows) = self.tags() {
                    assert(borrowed_tags(tags@) =~= rows);
                }
            }
        }
        r
    }

    /// The views of the files of a mapped or filtered result. Any other
    /// result has none to give.
    pub fn file_view_iter<'q>(&'q self) -> (r: Result<Vec<FileView<'q>>, Error>)
        requires
            self.wf(),
        ensures
            match self.viewed() {
                Ok(ids) => r is Ok,
                Err(f) => r matches Err(e) && e@ == f,
            },
            match self {
                Results::Mapped(_) | Results::Filtered(_) => match r {
                    Ok(views) => views@.len() == self.shown().len() && forall|i: int|
                        0 <= i < views@.len() ==> (#[trigger] views@[i]).wf() && views@[i]@
                            == self.maps()->Some_0.file_map()[self.shown()[i] as int]
                            && views@[i].subject() == self.maps()->Some_0.subject(self.shown()[i])
                            && *views@[i].maps() == *self.maps()->Some_0,
                    Err(e) => e@ == Fault::Collections(Seq::<char>::empty())
                        && !self.maps()->Some_0.has_files(self.shown()),
                },
                Results::Unassociated(_) => r matches Err(e) && e@ == wrong_state(
                    "Unassociated"@,
                    "file_view_iter()"@,
                ),
                Results::Unmapped(_) => r matches Err(e) && e@ == wrong_state(
                    "Unmapped"@,
                    "file_view_iter()"@,
                ),
                Results::Piped(_) => r matches Err(e) && e@ == wrong_state(
                    "Piped"@,
                    "file_view_iter()"@,
                ),
            },
    {
        match self {
            Results::Mapped(inner) => {
                match file_views(inner.maps(), &inner.file_view()) {
                    Ok(views) => Ok(views),
                    Err(e) => Err(Error::Collections(e)),
                }
            },
            Results::Filtered(inner) => {
                match file_views(inner.maps(), &inner.file_view()) {
                    Ok(views) => Ok(views),
                    Err(e) => Err(Error::Collections(e)),
                }
            },
            _ => Err(
                Error::Data(
                    data::Error::WrongState {
                        state: self.name().to_owned(),
                        operation: "file_view_iter()".to_owned(),
                    },
                ),
            ),
        }
    }

    /// The views of the tags of a mapped result. Any other result has none
    /// to give.
    pub fn tag_view_iter<'q>(&'q self) -> (r: Result<Vec<TagView<'q>>, Error>)
        requires
            self.wf(),
        ensures
            match self {
                Results::Mapped(inner) => match r {
                    Ok(views) => views@.len() == inner.maps.maps().tag_order().len() && forall|
                        i: int,
                    |
                        0 <= i < views@.len() ==> (#[trigger] views@[i]).wf() && views@[i]@
                            == inner.maps.maps().tag_map()[inner.maps.maps().tag_order()[i] as int],
                    Err(e) => e@ == Fault::Collections(Seq::<char>::empty()),
                },
                _ => r matches Err(e) && e@ == wrong_state(
                    match self {
                        Results::Unassociated(_) => "Unassociated"@,
                        Results::Unmapped(_) => "Unmapped"@,
                        Results::Mapped(_) => "Mapped"@,
                        Results::Filtered(_) => "Filtered"@,
                        Results::Piped(_) => "Piped"@,
                    },
                    "tag_view_iter()"@,
                ),
            },
    {
        match self {
            Results::Mapped(inner) => {
                match tag_views(inner.maps(), &inner.tag_view()) {
                    Ok(views) => Ok(views),
                    Err(e) => Err(Error::Collections(e)),
                }
            },
            _ => Err(
                Error::Data(
                    data::Error::WrongState {
                        state: self.name().to_owned(),
                        operation: "tag_view_iter()".to_owned(),
                    },
                ),
            ),
        }
    }
}

/// The files of a filtered or piped result are files of its maps: no stage
/// after the maps adds a file.
pub proof fn lemma_results_within(results: Results)
    requires
        results.wf(),
    ensures
        results.maps() matches Some(maps) ==> forall|i: int|
            0 <= i < results.shown().len() ==> maps.file_order().contains(
                #[trigger] results.shown()[i],
            ),
{
}

/// What the next step of a query needs from outside.
pub enum Request {
    /// The associations that the store holds for the files that a predicate
    /// selects; for all files where there is none.
    Rows(Option<Predicate>),
    /// The rows of the files and of the tags with these ids.
    Columns { fids: Vec<Fid>, tids: Vec<Tid> },
    /// The outcomes of these shell commands.
    Outcomes(Vec<String>),
    /// What a shell command prints when it is fed a text.
    Output { command: String, input: String },
    /// Nothing.
    Nothing,
}

/// What came from outside for a step of a query.
pub enum Event {
    /// The associations that the store returned.
    Rows(Vec<Ids>),
    /// The rows of files and of tags that the store returned.
    Columns(Vec<FCol>, Vec<TCol>),
    /// The outcomes of shell commands, by command.
    Outcomes(VecMap<String, bool>),
    /// What a shell command printed.
    Output(String),
    /// Nothing.
    Nothing,
}

/// The kinds of what a step needs and of what came.
#[derive(Debug, Clone, Copy, PartialEq, Eq, Structural)]
pub enum Need {
    Rows,
    Columns,
    Outcomes,
    Output,
    Nothing,
}

impl Request {
    /// The kind of the request.
    pub open spec fn kind(&self) -> Need {
        match self {
            Request::Rows(_) => Need::Rows,
            Request::Columns { .. } => Need::Columns,
            Request::Outcomes(_) => Need::Outcomes,
            Request::Output { .. } => Need::Output,
            Request::Nothing => Need::Nothing,
        }
    }
}

impl Event {
    /// The kind of the event.
    pub open spec fn kind(&self) -> Need {
        match self {
            Event::Rows(_) => Need::Rows,
            Event::Columns(_, _) => Need::Columns,
            Event::Outcomes(_) => Need::Outcomes,
            Event::Output(_) => Need::Output,
            Event::Nothing => Need::Nothing,
        }
    }

    /// The parts of the event are well formed.
    pub open spec fn wf(&self) -> bool {
        match self {
            Event::Outcomes(outcomes) => outcomes.wf(),
            _ => true,
        }
    }
}

/// What the step from a stage needs, given what is forced.
pub open spec fn needed(stage: Stage, forced: Forced) -> Need {
    match stage {
        Stage::Init => Need::Rows,
        Stage::Raw => Need::Columns,
        Stage::Unassociated => Need::Nothing,
        Stage::Unmapped => Need::Nothing,
        Stage::Mapped => if forced.filtered {
            Need::Outcomes
        } else if forced.piped {
            Need::Output
        } else {
            Need::Nothing
        },
        Stage::Filtered => if forced.piped {
            Need::Output
        } else {
            Need::Nothing
        },
        Stage::Piped => Need::Nothing,
    }
}

/// Whether anything is forced.
pub open spec fn none(forced: Forced) -> bool {
    !forced.mapped && !forced.filtered && !forced.piped
}

/// The stage that the step from a stage leads to, and whether the query is
/// done with it.
pub open spec fn target(stage: Stage, forced: Forced) -> (Stage, bool) {
    match stage {
        Stage::Init => (Stage::Raw, false),
        Stage::Raw => if none(forced) {
            (Stage::Unassociated, false)
        } else {
            (Stage::Unmapped, false)
        },
        Stage::Unassociated => (Stage::Unassociated, true),
        Stage::Unmapped => if none(forced) {
            (Stage::Unmapped, true)
        } else {
            (Stage::Mapped, false)
        },
        Stage::Mapped => if forced.filtered {
            (Stage::Filtered, false)
        } else if forced.piped {
            (Stage::Piped, false)
        } else {
            (Stage::Mapped, true)
        },
        Stage::Filtered => if forced.piped {
            (Stage::Piped, true)
        } else {
            (Stage::Filtered, true)
        },
        Stage::Piped => (Stage::Piped, true),
    }
}

/// The state of a query: on its way, or done.
pub enum State {
    Incomplete(Progress),
    Done(Results),
}

impl State {
    /// The parts of the state are well formed.
    pub open spec fn wf(&self) -> bool {
        match self {
            State::Incomplete(progress) => progress.wf(),
            State::Done(results) => results.wf(),
        }
    }

    /// The stage of the state.
    pub open spec fn stage(&self) -> Stage {
        match self {
            State::Incomplete(progress) => progress.stage(),
            State::Done(results) => results.stage(),
        }
    }

    /// Whether the query is done.
    pub open spec fn done(&self) -> bool {
        self is Done
    }

    /// The maps of a state that has some.
    pub open spec fn maps(&self) -> Option<&Maps> {
        match self {
            State::Incomplete(progress) => progress.maps(),
            State::Done(results) => results.maps(),
        }
    }

    /// The ids of the files that a state with maps shows.
    pub open spec fn shown(&self) -> Seq<i64> {
        match self {
            State::Incomplete(progress) => progress.shown(),
            State::Done(results) => results.shown(),
        }
    }

    /// What the next step needs from outside.
    pub fn request(&self, dbq: &DatabaseQuery) -> (r: Result<Request, Error>)
        requires
            self.wf(),
        ensures
            self.done() ==> r matches Ok(Request::Nothing),
            r matches Ok(request) ==> (self.done() || request.kind() == needed(
                self.stage(),
                dbq.forcings@,
            )),
            self matches State::Incomplete(progress) ==> requested(
                *progress,
                dbq.pipeline@,
                dbq.forcings@,
                r,
            ),
    {
        match self {
            State::Incomplete(progress) => progress.request(dbq),
            State::Done(_) => Ok(Request::Nothing),
        }
    }

    /// Takes one step with what came from outside. A state that is done
    /// stays as it is.
    pub fn process(self, dbq: &DatabaseQuery, event: Event) -> (r: Result<State, Error>)
        requires
            self.wf(),
            event.wf(),
            dbq.forcings.wf(),
        ensures
            self.done() ==> (r matches Ok(s) && s == self),
            !self.done() ==> (r matches Ok(next) ==> (event.kind() == needed(
                self.stage(),
                dbq.forcings@,
            ) && (next.stage(), next.done()) == target(self.stage(), dbq.forcings@) && next.wf()
                && follows(self, next))),
            !self.done() && event.kind() != needed(self.stage(), dbq.forcings@) ==> (r matches Err(
                e,
            ) && e@ == wrong_state(stage_name(self.stage()), "drive"@)),
            self matches State::Incomplete(progress) ==> driven(
                progress,
                dbq.pipeline@,
                dbq.forcings@,
                event,
                r,
            ),
    {
        match self {
            State::Incomplete(progress) => progress.drive(dbq, event),
            State::Done(results) => Ok(State::Done(results)),
        }
    }

    /// The results of a query that is done.
    pub fn results(self) -> (r: Option<Results>)
        ensures
            match self {
                State::Done(results) => r == Some(results),
                State::Incomplete(_) => r is None,
            },
    {
        match self {
            State::Done(results) => Some(results),
            State::Incomplete(_) => None,
        }
    }
}

/// What a step keeps: the maps, once there are some, and of the files that
/// are shown only files of the maps.
pub open spec fn follows(before: State, after: State) -> bool {
    &&& before.maps() matches Some(maps) ==> after.maps() matches Some(kept) && *kept == *maps
    &&& after.maps() matches Some(maps) ==> forall|i: int|
        0 <= i < after.shown().len() ==> maps.file_order().contains(#[trigger] after.shown()[i])
}

/// The name of a stage.
pub open spec fn stage_name(stage: Stage) -> Seq<char> {
    match stage {
        Stage::Init => "init"@,
        Stage::Raw => "raw"@,
        Stage::Unassociated => "unassociated"@,
        Stage::Unmapped => "unmapped"@,
        Stage::Mapped => "mapped"@,
        Stage::Filtered => "filtered"@,
        Stage::Piped => "piped"@,
    }
}

/// The progress of a query that is not done.
pub enum Progress {
    Init,
    Raw(Raw),
    Unassociated(Unassociated),
    Unmapped(Unmapped),
    Mapped(Mapped),
    Filtered(Filtered),
    Piped(Piped),
}

impl Progress {
    /// The parts of the progress are well formed.
    pub open spec fn wf(&self) -> bool {
        match self {
            Progress::Init => true,
            Progress::Raw(_) => true,
            Progress::Unassociated(_) => true,
            Progress::Unmapped(inner) => inner.wf(),
            Progress::Mapped(inner) => inner.maps.wf(),
            Progress::Filtered(inner) => inner.wf(),
            Progress::Piped(inner) => inner.wf(),
        }
    }

    /// The stage of the progress.
    pub open spec fn stage(&self) -> Stage {
        match self {
            Progress::Init => Stage::Init,
            Progress::Raw(_) => Stage::Raw,
            Progress::Unassociated(_) => Stage::Unassociated,
            Progress::Unmapped(_) => Stage::Unmapped,
            Progress::Mapped(_) => Stage::Mapped,
            Progress::Filtered(_) => Stage::Filtered,
            Progress::Piped(_) => Stage::Piped,
        }
    }

    /// The maps of a progress that has some.
    pub open spec fn maps(&self) -> Option<&Maps> {
        match self {
            Progress::Mapped(inner) => Some(inner.maps.maps()),
            Progress::Filtered(inner) => Some(inner.maps.maps()),
            Progress::Piped(inner) => Some(inner.maps.maps()),
            _ => None,
        }
    }

    /// The ids of the files that a progress with maps shows.
    pub open spec fn shown(&self) -> Seq<i64> {
        match self {
            Progress::Mapped(inner) => inner.maps.maps().file_order(),
            Progress::Filtered(inner) => inner.fids@,
            Progress::Piped(inner) => inner.fids@,
            _ => Seq::<i64>::empty(),
        }
    }

    /// The name of the stage, for errors.
    fn name(&self) -> (n: &'static str)
        ensures
            n@ == stage_name(self.stage()),
    {
        match self {
            Progress::Init => "init",
            Progress::Raw(_) => "raw",
            Progress::Unassociated(_) => "unassociated",
            Progress::Unmapped(_) => "unmapped",
            Progress::Mapped(_) => "mapped",
            Progress::Filtered(_) => "filtered",
            Progress::Piped(_) => "piped",
        }
    }

    /// What the next step needs from outside.
    pub fn request(&self, dbq: &DatabaseQuery) -> (r: Result<Request, Error>)
        requires
            self.wf(),
        ensures
            r matches Ok(request) ==> request.kind() == needed(self.stage(), dbq.forcings@),
            self.stage() == Stage::Init ==> match dbq.pipeline@.query {
                None => r matches Ok(Request::Rows(None)),
                Some(tree) => match compiled(tree) {
                    Ok(condition) => r matches Ok(Request::Rows(Some(p))) && p@ == condition,
                    Err(f) => r matches Err(e) && e@ == Fault::Dsl(f),
                },
            },
            self matches Progress::Raw(raw) ==> (r matches Ok(Request::Columns { fids, tids })
                && fids@ == firsts(raw.data@) && tids@ == seconds(raw.data@)),
            needed(self.stage(), dbq.forcings@) == Need::Nothing ==> r matches Ok(
                Request::Nothing,
            ),
            requested(*self, dbq.pipeline@, dbq.forcings@, r),
    {
        match self {
            Progress::Init => {
                match dbq.pipeline.get_query() {
                    None => Ok(Request::Rows(None)),
                    Some(query) => {
                        let dsl = QueryDsl::new();
                        let mut context = ();
                        match dsl.evaluate(query.as_ast(), &mut context, &()) {
                            Ok(predicate) => Ok(Request::Rows(Some(predicate))),
                            Err(e) => Err(Error::Dsl(e)),
                        }
                    },
                }
            },
            Progress::Raw(raw) => {
                let (fids, tids) = api::query_columns(&raw.data);
                Ok(Request::Columns { fids, tids })
            },
            Progress::Unassociated(_) => Ok(Request::Nothing),
            Progress::Unmapped(_) => Ok(Request::Nothing),
            Progress::Mapped(inner) => {
                if dbq.forcings.has_filtered() {
                    let ids = inner.file_view();
                    match outcome_request(inner.maps(), &ids, dbq.pipeline) {
                        Ok(commands) => Ok(Request::Outcomes(commands)),
                        Err(e) => Err(e),
                    }
                } else if dbq.forcings.has_piped() {
                    let ids = inner.file_view();
                    pipe_request(inner.maps(), &ids, dbq.pipeline, "mapped (no pipe)")
                } else {
                    Ok(Request::Nothing)
                }
            },
            Progress::Filtered(inner) => {
                if dbq.forcings.has_piped() {
                    pipe_request(inner.maps(), &inner.fids, dbq.pipeline, "filtered (no pipe)")
                } else {
                    Ok(Request::Nothing)
                }
            },
            Progress::Piped(_) => Ok(Request::Nothing),
        }
    }

    /// Takes the step from this stage with what came from outside. What
    /// came has to be of the kind that the step needs.
    pub fn drive(self, dbq: &DatabaseQuery, event: Event) -> (r: Result<State, Error>)
        requires
            self.wf(),
            event.wf(),
            dbq.forcings.wf(),
        ensures
            r matches Ok(next) ==> (event.kind() == needed(self.stage(), dbq.forcings@) && (
                next.stage(),
                next.done(),
            ) == target(self.stage(), dbq.forcings@) && next.wf() && follows(
                State::Incomplete(self),
                next,
            )),
            event.kind() != needed(self.stage(), dbq.forcings@) ==> (r matches Err(e) && e@
                == wrong_state(stage_name(self.stage()), "drive"@)),
            driven(self, dbq.pipeline@, dbq.forcings@, event, r),
    {
        let name = self.name();
        let wrong = Error::Data(
            data::Error::WrongState { state: name.to_owned(), operation: "drive".to_owned() },
        );
        proof {
            dbq.forcings.lemma_implied();
            if let Some(maps) = self.maps() {
                lemma_whole(maps.file_order());
            }
        }
        match self {
            Progress::Init => {
                match event {
                    Event::Rows(rows) => Ok(State::Incomplete(Progress::Raw(Raw::from_query(rows)))),
                    _ => Err(wrong),
                }
            },
            Progress::Raw(inner) => {
                match event {
                    Event::Columns(fcol, tcol) => {
                        if dbq.forcings.has_none() {
                            match Unassociated::from_raw(inner, fcol, tcol) {
                                Ok(next) => Ok(State::Incomplete(Progress::Unassociated(next))),
                                Err(e) => Err(Error::Data(e)),
                            }
                        } else {
                            match Unmapped::from_raw(inner, fcol, tcol) {
                                Ok(next) => Ok(State::Incomplete(Progress::Unmapped(next))),
                                Err(e) => Err(Error::Data(e)),
                            }
                        }
                    },
                    _ => Err(wrong),
                }
            },
            Progress::Unassociated(inner) => {
                match event {
                    Event::Nothing => Ok(State::Done(Results::Unassociated(inner))),
                    _ => Err(wrong),
                }
            },
            Progress::Unmapped(inner) => {
                match event {
                    Event::Nothing => {
                        if dbq.forcings.has_none() {
                            Ok(State::Done(Results::Unmapped(inner)))
                        } else {
                            let mapped = Mapped::from_rows(inner);
                            proof {
                                lemma_whole(mapped.maps.maps().file_order());
                            }
                            Ok(State::Incomplete(Progress::Mapped(mapped)))
                        }
                    },
                    _ => Err(wrong),
                }
            },
            Progress::Mapped(inner) => {
                if dbq.forcings.has_filtered() {
                    match event {
                        Event::Outcomes(outcomes) => {
                            match Filtered::from_mapped(inner, dbq, &outcomes) {
                                Ok(next) => Ok(State::Incomplete(Progress::Filtered(next))),
                                Err(e) => Err(e),
                            }
                        },
                        _ => Err(wrong),
                    }
                } else if dbq.forcings.has_piped() {
                    match event {
                        Event::Output(output) => {
                            match Piped::from_mapped(inner, dbq, output.as_str()) {
                                Ok(next) => Ok(State::Incomplete(Progress::Piped(next))),
                                Err(e) => Err(e),
                            }
                        },
                        _ => Err(wrong),
                    }
                } else {
                    match event {
                        Event::Nothing => Ok(State::Done(Results::Mapped(inner))),
                        _ => Err(wrong),
                    }
                }
            },
            Progress::Filtered(inner) => {
                if dbq.forcings.has_piped() {
                    match event {
                        Event::Output(output) => {
                            match Piped::from_filtered(inner, dbq, output.as_str()) {
                                Ok(next) => Ok(State::Done(Results::Piped(next))),
                                Err(e) => Err(e),
                            }
                        },
                        _ => Err(wrong),
                    }
                } else {
                    match event {
                        Event::Nothing => Ok(State::Done(Results::Filtered(inner))),
                        _ => Err(wrong),
                    }
                }
            },
            Progress::Piped(inner) => {
                match event {
                    Event::Nothing => Ok(State::Done(Results::Piped(inner))),
                    _ => Err(wrong),
                }
            },
        }
    }
}

/// The request for the output of the pipe of a pipeline, fed the paths of
/// the files with the ids `ids`. Where the pipeline has no pipe, `missing`
/// is the error; a file that the maps do not have is an error too.
pub open spec fn pipe_asked(
    maps: &Maps,
    ids: Seq<i64>,
    pipeline: Stages,
    missing: Fault,
    r: Result<Request, Error>,
) -> bool {
    match pipeline.pipe {
        None => r matches Err(e) && e@ == missing,
        Some(command) => match fed(maps, ids, Seq::<char>::empty()) {
            Ok(text) => r matches Ok(Request::Output { command: c, input }) && c@ == command
                && input@ == text,
            Err(f) => r matches Err(e) && e@ == f,
        },
    }
}

/// What the step from a stage asks of the outside. At the start it asks
/// for the rows that the query of the pipeline selects, compiled into a
/// predicate, or for all rows; then for the columns of the files and the
/// tags of the rows. A mapped result that is to be filtered asks for the
/// outcomes of the shell commands of the filter, for each of its files; a
/// result that is to be piped asks for the output of the pipe, fed the paths
/// of its files. Every other step asks for nothing.
pub open spec fn requested(
    progress: Progress,
    pipeline: Stages,
    forced: Forced,
    r: Result<Request, Error>,
) -> bool {
    match progress {
        Progress::Init => match pipeline.query {
            None => r matches Ok(Request::Rows(None)),
            Some(tree) => match compiled(tree) {
                Ok(condition) => r matches Ok(Request::Rows(Some(p))) && p@ == condition,
                Err(f) => r matches Err(e) && e@ == Fault::Dsl(f),
            },
        },
        Progress::Raw(raw) => r matches Ok(Request::Columns { fids, tids }) && fids@ == firsts(
            raw.data@,
        ) && tids@ == seconds(raw.data@),
        Progress::Unassociated(_) => r matches Ok(Request::Nothing),
        Progress::Unmapped(_) => r matches Ok(Request::Nothing),
        Progress::Mapped(m) => if forced.filtered {
            match pipeline.filter {
                None => r matches Err(e) && e@ == no_filter(),
                Some(tree) => match all_commands(
                    m.maps.maps(),
                    tree,
                    m.maps.maps().file_order(),
                    Seq::<Seq<char>>::empty(),
                ) {
                    Ok(commands) => r matches Ok(Request::Outcomes(list)) && views(list@)
                        == commands,
                    Err(f) => r matches Err(e) && e@ == f,
                },
            }
        } else if forced.piped {
            pipe_asked(m.maps.maps(), m.maps.maps().file_order(), pipeline, no_pipe_mapped(), r)
        } else {
            r matches Ok(Request::Nothing)
        },
        Progress::Filtered(f) => if forced.piped {
            pipe_asked(f.maps.maps(), f.fids@, pipeline, no_pipe_filtered(), r)
        } else {
            r matches Ok(Request::Nothing)
        },
        Progress::Piped(_) => r matches Ok(Request::Nothing),
    }
}

/// What filtering a mapped result gives, for the outcomes of the shell
/// commands of the filter: the ids that pass, in the order of the maps.
pub open spec fn filter_step(
    mapped: Mapped,
    pipeline: Stages,
    outcomes: Map<Seq<char>, bool>,
    r: Result<Filtered, Error>,
) -> bool {
    match pipeline.filter {
        None => r matches Err(e) && e@ == no_filter(),
        Some(tree) => match kept(
            mapped.maps.maps(),
            outcomes,
            tree,
            mapped.maps.maps().file_order(),
            Seq::<i64>::empty(),
        ) {
            Ok(keep) => r matches Ok(f) && f.maps == mapped.maps && f.fids@ == keep && f.wf(),
            Err(x) => r matches Err(e) && e@ == x,
        },
    }
}

/// What piping gives, for what the pipe printed: the ids of the files whose
/// paths are its lines. Where the pipeline has no pipe, `missing` is the
/// error.
pub open spec fn pipe_step(
    maps: OwnedMaps,
    pipeline: Stages,
    output: Seq<char>,
    missing: Fault,
    r: Result<Piped, Error>,
) -> bool {
    match pipeline.pipe {
        None => r matches Err(e) && e@ == missing,
        Some(_) => match piped(
            maps.maps(),
            crate::util::string::split(output, seq!['\n']),
            Seq::<i64>::empty(),
        ) {
            Ok(keep) => r matches Ok(p) && p.maps == maps && p.fids@ == keep && p.wf(),
            Err(x) => r matches Err(e) && e@ == x,
        },
    }
}

/// What the step from a stage gives, for what came from outside. The rows
/// of a query become its raw state. The columns have to be as many as the
/// files and the tags of the rows; they become the unassociated state where
/// nothing is forced, and the unmapped state with the map of the
/// associations else. A result that needs no more is done; else the rows are
/// mapped, the files are filtered by the filter of the pipeline, and piped
/// through its pipe. What came of another kind than the step needs is
/// refused.
pub open spec fn driven(
    before: Progress,
    pipeline: Stages,
    forced: Forced,
    event: Event,
    r: Result<State, Error>,
) -> bool {
    match (before, event) {
        (Progress::Init, Event::Rows(rows)) => r matches Ok(
            State::Incomplete(Progress::Raw(raw)),
        ) && raw.data == rows,
        (Progress::Raw(raw), Event::Columns(fcol, tcol)) => if fcol@.len() == firsts(
            raw.data@,
        ).len() && tcol@.len() == seconds(raw.data@).len() {
            if none(forced) {
                r matches Ok(State::Incomplete(Progress::Unassociated(u))) && u.cols.file_col()
                    == file_rows(fcol@) && u.cols.tag_col() == tag_rows(tcol@)
                    && u.cols.pair_col() == raw.data@
            } else {
                r matches Ok(State::Incomplete(Progress::Unmapped(u))) && u.cols.file_col()
                    == file_rows(fcol@) && u.cols.tag_col() == tag_rows(tcol@)
                    && u.cols.pair_col() == raw.data@ && u.wf()
            }
        } else {
            r matches Err(e) && e@ == Fault::Data(inconsistent())
        },
        (Progress::Unassociated(u), Event::Nothing) => r matches Ok(
            State::Done(Results::Unassociated(x)),
        ) && x == u,
        (Progress::Unmapped(u), Event::Nothing) => if none(forced) {
            r matches Ok(State::Done(Results::Unmapped(x))) && x == u
        } else {
            r matches Ok(State::Incomplete(Progress::Mapped(m))) && m.maps.wf()
                && *m.maps.columns() == u.cols && m.maps.maps().tags_of() == u.asso.lefts()
                && m.maps.maps().files_of() == u.asso.rights()
        },
        (Progress::Mapped(m), Event::Outcomes(outcomes)) => if forced.filtered {
            match r {
                Ok(State::Incomplete(Progress::Filtered(f))) => filter_step(
                    m,
                    pipeline,
                    outcomes@,
                    Ok(f),
                ),
                Ok(_) => false,
                Err(e) => filter_step(m, pipeline, outcomes@, Err(e)),
            }
        } else {
            r matches Err(e) && e@ == wrong_state(stage_name(Stage::Mapped), "drive"@)
        },
        (Progress::Mapped(m), Event::Output(output)) => if !forced.filtered && forced.piped {
            match r {
                Ok(State::Incomplete(Progress::Piped(p))) => pipe_step(
                    m.maps,
                    pipeline,
                    output@,
                    no_pipe_mapped(),
                    Ok(p),
                ),
                Ok(_) => false,
                Err(e) => pipe_step(m.maps, pipeline, output@, no_pipe_mapped(), Err(e)),
            }
        } else {
            r matches Err(e) && e@ == wrong_state(stage_name(Stage::Mapped), "drive"@)
        },
        (Progress::Mapped(m), Event::Nothing) => if !forced.filtered && !forced.piped {
            r matches Ok(State::Done(Results::Mapped(x))) && x == m
        } else {
            r matches Err(e) && e@ == wrong_state(stage_name(Stage::Mapped), "drive"@)
        },
        (Progress::Filtered(f), Event::Output(output)) => if forced.piped {
            match r {
                Ok(State::Done(Results::Piped(p))) => pipe_step(
                    f.maps,
                    pipeline,
                    output@,
                    no_pipe_filtered(),
                    Ok(p),
                ),
                Ok(_) => false,
                Err(e) => pipe_step(f.maps, pipeline, output@, no_pipe_filtered(), Err(e)),
            }
        } else {
            r matches Err(e) && e@ == wrong_state(stage_name(Stage::Filtered), "drive"@)
        },
        (Progress::Filtered(f), Event::Nothing) => if !forced.piped {
            r matches Ok(State::Done(Results::Filtered(x))) && x == f
        } else {
            r matches Err(e) && e@ == wrong_state(stage_name(Stage::Filtered), "drive"@)
        },
        (Progress::Piped(p), Event::Nothing) => r matches Ok(State::Done(Results::Piped(x)))
            && x == p,
        (before, _) => r matches Err(e) && e@ == wrong_state(stage_name(before.stage()), "drive"@),
    }
}

/// A list holds each of its items.
pub proof fn lemma_whole(ids: Seq<i64>)
    ensures
        forall|i: int| 0 <= i < ids.len() ==> ids.contains(#[trigger] ids[i]),
{
}

/// The shell commands that a filter asks the outcomes of, for each of the
/// files with the ids `ids`.
pub open spec fn all_commands(maps: &Maps, tree: Tree, ids: Seq<i64>, acc: Seq<Seq<char>>) -> Result<
    Seq<Seq<char>>,
    Fault,
>
    decreases ids.len(),
{
    if ids.len() == 0 {
        Ok(acc)
    } else if !maps.has_file(ids[0]) {
        Err(Fault::Collections(Seq::<char>::empty()))
    } else {
        all_commands(
            maps,
            tree,
            ids.drop_first(),
            acc + commands_of(tree, maps.file_map()[ids[0] as int].path),
        )
    }
}

/// The shell commands whose outcomes the filter of a pipeline needs for the
/// files with the ids `ids`.
pub fn outcome_request(maps: &Maps, ids: &Vec<Fid>, pipeline: &Pipeline) -> (r: Result<
    Vec<String>,
    Error,
>)
    requires
        maps.wf(),
    ensures
        match pipeline@.filter {
            None => r matches Err(e) && e@ == no_filter(),
            Some(tree) => match all_commands(maps, tree, ids@, Seq::<Seq<char>>::empty()) {
                Ok(commands) => r matches Ok(list) && views(list@) == commands,
                Err(f) => r matches Err(e) && e@ == f,
            },
        },
{
    let ast = match pipeline.get_filter() {
        Some(e) => e.as_ast(),
        None => {
            return Err(
                Error::Data(
                    data::Error::WrongState {
                        state: "mapped (no filter)".to_owned(),
                        operation: "filter".to_owned(),
                    },
                ),
            );
        },
    };
    let mut list: Vec<String> = Vec::new();
    let mut i: usize = 0;
    assert(ids@.skip(0) =~= ids@);
    assert(views(list@) =~= Seq::<Seq<char>>::empty());
    while i < ids.len()
        invariant
            i <= ids@.len(),
            maps.wf(),
            pipeline@.filter == Some(ast@),
            all_commands(maps, ast@, ids@, Seq::<Seq<char>>::empty()) == all_commands(
                maps,
                ast@,
                ids@.skip(i as int),
                views(list@),
            ),
        decreases ids@.len() - i,
    {
        let id = ids[i];
        proof {
            assert(ids@.skip(i as int)[0] == id);
            assert(ids@.skip(i as int).drop_first() =~= ids@.skip(i + 1));
        }
        let file = match maps.file(id) {
            Ok(file) => file,
            Err(e) => {
                return Err(Error::Collections(e));
            },
        };
        let more = FilterDsl::commands(ast, file.path());
        let ghost before = views(list@);
        let ghost added = views(more@);
        let mut k: usize = 0;
        assert(before + added.take(0) =~= before);
        while k < more.len()
            invariant
                k <= more@.len(),
                added == views(more@),
                views(list@) == before + added.take(k as int),
            decreases more@.len() - k,
        {
            let ghost so_far = list@;
            list.push(more[k].clone());
            proof {
                assert(views(list@) =~= views(so_far).push(more@[k as int]@));
                assert(added.take(k as int + 1) =~= added.take(k as int).push(more@[k as int]@));
                assert(views(list@) =~= before + added.take(k as int + 1));
            }
            k += 1;
        }
        assert(added.take(k as int) =~= added);
        i += 1;
    }
    Ok(list)
}

/// The request for the output of the pipe of a pipeline, fed the paths of
/// the files with the ids `ids`.
pub fn pipe_request(maps: &Maps, ids: &Vec<Fid>, pipeline: &Pipeline, state: &str) -> (r: Result<
    Request,
    Error,
>)
    requires
        maps.wf(),
    ensures
        match pipeline@.pipe {
            None => r matches Err(e) && e@ == wrong_state(state@, "pipe"@),
            Some(command) => match fed(maps, ids@, Seq::<char>::empty()) {
                Ok(text) => r matches Ok(Request::Output { command: c, input }) && c@ == command
                    && input@ == text,
                Err(f) => r matches Err(e) && e@ == f,
            },
        },
{
    let command = match pipeline.get_pipe() {
        Some(command) => command,
        None => {
            return Err(
                Error::Data(
                    data::Error::WrongState {
                        state: state.to_owned(),
                        operation: "pipe".to_owned(),
                    },
                ),
            );
        },
    };
    let filter = PipeFilter::new(maps, command.as_str());
    match filter.input(ids) {
        Ok(input) => Ok(Request::Output { command: command.clone(), input }),
        Err(e) => Err(e),
    }
}

/// The state that a step of a query gave, or its error.
pub open spec fn state_of<'e>(r: Result<Query<'e>, Error>) -> Result<State, Error> {
    match r {
        Ok(q) => Ok(q.state()),
        Err(e) => Err(e),
    }
}

/// A query: a pipeline, what it is forced to reach, and its state.
pub struct Query<'e> {
    dbq: DatabaseQuery<'e>,
    state: State,
}

impl<'e> Query<'e> {
    /// The state and the forcings are well formed.
    pub closed spec fn wf(&self) -> bool {
        self.state.wf() && self.dbq.forcings.wf()
    }

    /// The stage of the query.
    pub open spec fn stage(&self) -> Stage {
        self.state().stage()
    }

    /// Whether the query is done.
    pub open spec fn done(&self) -> bool {
        self.state().done()
    }

    /// The pipeline of the query.
    pub closed spec fn pipeline(&self) -> &Pipeline {
        self.dbq.pipeline
    }

    /// What the query is forced to reach.
    pub closed spec fn forcings(&self) -> Forced {
        self.dbq.forcings@
    }

    /// The state of the query.
    pub closed spec fn state(&self) -> State {
        self.state
    }

    /// A query at its start, forced to reach what `forcings` and the
    /// pipeline ask for.
    pub fn new(pipeline: &'e Pipeline, forcings: Forcings) -> (q: Self)
        requires
            forcings.wf(),
        ensures
            q.wf(),
            q.state() == State::Incomplete(Progress::Init),
            q.stage() == Stage::Init,
            !q.done(),
            *q.pipeline() == *pipeline,
            q.forcings() == joined(forcings@, minimum(pipeline@)),
    {
        let forcings = forcings.combine(pipeline.forcings());
        Query {
            dbq: DatabaseQuery { pipeline, forcings },
            state: State::Incomplete(Progress::Init),
        }
    }

    /// What the next step of the query needs from outside.
    pub fn request(&self) -> (r: Result<Request, Error>)
        requires
            self.wf(),
        ensures
            self.done() ==> r matches Ok(Request::Nothing),
            r matches Ok(request) ==> (self.done() || request.kind() == needed(
                self.stage(),
                self.forcings(),
            )),
            self.state() matches State::Incomplete(progress) ==> requested(
                progress,
                self.pipeline()@,
                self.forcings(),
                r,
            ),
    {
        self.state.request(&self.dbq)
    }

    /// Takes one step of the query with what came from outside.
    pub fn execute(self, event: Event) -> (r: Result<Self, Error>)
        requires
            self.wf(),
            event.wf(),
        ensures
            r matches Ok(q) ==> (q.wf() && *q.pipeline() == *self.pipeline() && q.forcings()
                == self.forcings() && (if self.done() {
                q.state() == self.state()
            } else {
                (q.stage(), q.done()) == target(self.stage(), self.forcings()) && follows(
                    self.state(),
                    q.state(),
                )
            })),
            !self.done() && event.kind() != needed(self.stage(), self.forcings()) ==> r is Err,
            self.done() ==> r is Ok,
            self.state() matches State::Incomplete(progress) ==> driven(
                progress,
                self.pipeline()@,
                self.forcings(),
                event,
                state_of(r),
            ),
    {
        match self.state.process(&self.dbq, event) {
            Ok(state) => Ok(Query { dbq: self.dbq, state }),
            Err(e) => Err(e),
        }
    }

    /// Whether the query is done.
    pub fn is_done(&self) -> (b: bool)
        ensures
            b == self.done(),
    {
        match &self.state {
            State::Done(_) => true,
            State::Incomplete(_) => false,
        }
    }

    /// The results of the query, once it is done.
    pub fn results(self) -> (r: Option<Results>)
        ensures
            r is Some <==> self.done(),
            r matches Some(results) ==> (self.state() == State::Done(results)),
    {
        self.state.results()
    }
}

} // verus!
