//! Filters of a mapped result: by a syntax tree, and by the output of a
//! shell command.
use crate::app::data::error as data;
use crate::app::data::query::maps::{ordered_uids, FileView, Maps};
use crate::dsl::filter::dsl::tested;
use crate::dsl::filter::{Context, Dsl};
use crate::expression::expression::Expression;
use crate::expression::parser::{Ast, Tree};
use crate::model::Fid;
use crate::util::error::{Error, Fault};
use crate::util::string::{append_str, collect, pieces, split, split_chars, to_chars};
use crate::util::table::VecMap;
use vstd::prelude::*;

verus! {

/// The ids of `ids` whose files pass the test of a tree, added to `acc`. The
/// first id that has no file in the maps, and the first test that fails, are
/// errors.
pub open spec fn kept(
    maps: &Maps,
    outcomes: Map<Seq<char>, bool>,
    tree: Tree,
    ids: Seq<i64>,
    acc: Seq<i64>,
) -> Result<Seq<i64>, Fault>
    decreases ids.len(),
{
    if ids.len() == 0 {
        Ok(acc)
    } else if !maps.has_file(ids[0]) {
        Err(Fault::Collections(Seq::<char>::empty()))
    } else {
        match tested(outcomes, tree, maps.subject(ids[0])) {
            Err(e) => Err(e),
            Ok(pass) => kept(
                maps,
                outcomes,
                tree,
                ids.drop_first(),
                if pass {
                    acc.push(ids[0])
                } else {
                    acc
                },
            ),
        }
    }
}

/// What was kept was there before or is one of the ids that were tested, and
/// has a file in the maps.
pub proof fn lemma_kept(
    maps: &Maps,
    outcomes: Map<Seq<char>, bool>,
    tree: Tree,
    ids: Seq<i64>,
    acc: Seq<i64>,
)
    ensures
        kept(maps, outcomes, tree, ids, acc) matches Ok(r) ==> forall|x: i64|
            r.contains(x) ==> acc.contains(x) || (ids.contains(x) && maps.has_file(x)),
    decreases ids.len(),
{
    if ids.len() > 0 && maps.has_file(ids[0]) {
        if let Ok(pass) = tested(outcomes, tree, maps.subject(ids[0])) {
            let next = if pass { acc.push(ids[0]) } else { acc };
            lemma_kept(maps, outcomes, tree, ids.drop_first(), next);
            if let Ok(r) = kept(maps, outcomes, tree, ids, acc) {
                assert forall|x: i64| r.contains(x) implies acc.contains(x) || (ids.contains(x)
                    && maps.has_file(x)) by {
                    if next.contains(x) {
                        let k = choose|k: int| 0 <= k < next.len() && next[k] == x;
                        if k < acc.len() {
                            assert(acc[k] == x);
                        } else {
                            assert(ids[0] == x);
                        }
                    } else {
                        let k = choose|k: int|
                            0 <= k < ids.drop_first().len() && ids.drop_first()[k] == x;
                        assert(ids[k + 1] == x);
                    }
                }
            }
        }
    }
}

/// The ids of the files whose paths are the lines `lines`, added to `acc`.
/// Empty lines are left out; the first line that is the path of no file of
/// the maps is an error.
pub open spec fn piped(maps: &Maps, lines: Seq<Seq<char>>, acc: Seq<i64>) -> Result<
    Seq<i64>,
    Fault,
>
    decreases lines.len(),
{
    if lines.len() == 0 {
        Ok(acc)
    } else if lines[0].len() == 0 {
        piped(maps, lines.drop_first(), acc)
    } else {
        match maps.path_id(maps.file_order(), lines[0]) {
            None => Err(Fault::Data(data::Fault::UnknownStrId { id: lines[0] })),
            Some(id) => piped(maps, lines.drop_first(), acc.push(id)),
        }
    }
}

/// What came out of a pipe was there before or is the id of a file of the
/// maps.
pub proof fn lemma_piped(maps: &Maps, lines: Seq<Seq<char>>, acc: Seq<i64>)
    ensures
        piped(maps, lines, acc) matches Ok(r) ==> forall|x: i64|
            r.contains(x) ==> acc.contains(x) || maps.file_order().contains(x),
    decreases lines.len(),
{
    if lines.len() > 0 {
        if lines[0].len() == 0 {
            lemma_piped(maps, lines.drop_first(), acc);
        } else if let Some(id) = maps.path_id(maps.file_order(), lines[0]) {
            maps.lemma_path_id(maps.file_order(), lines[0]);
            let next = acc.push(id);
            lemma_piped(maps, lines.drop_first(), next);
            if let Ok(r) = piped(maps, lines, acc) {
                assert forall|x: i64| r.contains(x) implies acc.contains(x)
                    || maps.file_order().contains(x) by {
                    if next.contains(x) {
                        let k = choose|k: int| 0 <= k < next.len() && next[k] == x;
                        if k < acc.len() {
                            assert(acc[k] == x);
                        }
                    }
                }
            }
        }
    }
}

/// The text that a pipe is fed: the paths of the files with the ids `ids`,
/// each followed by a line feed. The first id that has no file in the maps
/// is an error.
pub open spec fn fed(maps: &Maps, ids: Seq<i64>, acc: Seq<char>) -> Result<Seq<char>, Fault>
    decreases ids.len(),
{
    if ids.len() == 0 {
        Ok(acc)
    } else if !maps.has_file(ids[0]) {
        Err(Fault::Collections(Seq::<char>::empty()))
    } else {
        fed(maps, ids.drop_first(), acc + maps.file_map()[ids[0] as int].path + seq!['\n'])
    }
}

/// What takes some of the ids of a result.
pub trait Filter {
    /// What filtering needs of `self`, and keeps.
    spec fn ready(&self) -> bool;

    /// The ids that are kept, or the error of the filter.
    spec fn filtered(&self, ids: Seq<i64>) -> Result<Seq<i64>, Fault>;

    /// Filters a list of ids.
    fn filter(&mut self, ids: Vec<Fid>) -> (r: Result<Vec<Fid>, Error>)
        requires
            old(self).ready(),
        ensures
            final(self).ready(),
            final(self).filtered(ids@) == old(self).filtered(ids@),
            match old(self).filtered(ids@) {
                Ok(keep) => r matches Ok(v) && v@ == keep,
                Err(f) => r matches Err(e) && e@ == f,
            },
    ;
}

/// Filters files by a syntax tree.
pub struct DslFilter<'q> {
    maps: &'q Maps,
    ast: &'q Ast,
    context: Context,
    dsl: Dsl<'q>,
}

impl<'q> DslFilter<'q> {
    /// The maps, the cache and the table of outcomes are well formed.
    pub closed spec fn wf(&self) -> bool {
        self.maps.wf() && self.context.wf() && self.dsl.wf()
    }

    /// The maps that the files are in.
    pub closed spec fn maps(&self) -> &Maps {
        self.maps
    }

    /// The tree that the files are tested against.
    pub closed spec fn tree(&self) -> Tree {
        self.ast@
    }

    /// The outcomes of the shell commands, by command.
    pub closed spec fn outcomes(&self) -> Map<Seq<char>, bool> {
        self.dsl.outcomes()
    }

    /// A filter by the tree `ast`, with the outcomes of the shell commands
    /// that the tree may name.
    pub fn new(maps: &'q Maps, ast: &'q Ast, outcomes: &'q VecMap<String, bool>) -> (f: Self)
        requires
            maps.wf(),
            outcomes.wf(),
        ensures
            f.wf(),
            *f.maps() == *maps,
            f.tree() == ast@,
            f.outcomes() == outcomes@,
    {
        DslFilter { maps, context: Context::new(), dsl: Dsl::new(outcomes), ast }
    }

    /// Tests one file.
    pub fn filter_item(&mut self, file: &FileView<'q>) -> (r: Result<bool, Error>)
        requires
            old(self).wf(),
            file.wf(),
        ensures
            final(self).wf(),
            *final(self).maps() == *old(self).maps(),
            final(self).tree() == old(self).tree(),
            final(self).outcomes() == old(self).outcomes(),
            crate::expression::logic::outcome(r) == tested(
                old(self).outcomes(),
                old(self).tree(),
                file.subject(),
            ),
    {
        self.dsl.evaluate(self.ast, &mut self.context, file)
    }
}

impl<'q> Filter for DslFilter<'q> {
    open spec fn ready(&self) -> bool {
        self.wf()
    }

    open spec fn filtered(&self, ids: Seq<i64>) -> Result<Seq<i64>, Fault> {
        kept(self.maps(), self.outcomes(), self.tree(), ids, Seq::<i64>::empty())
    }

    fn filter(&mut self, ids: Vec<Fid>) -> (r: Result<Vec<Fid>, Error>) {
        let mut keep: Vec<Fid> = Vec::new();
        let mut i: usize = 0;
        let ghost goal = kept(self.maps(), self.outcomes(), self.tree(), ids@, Seq::<i64>::empty());
        assert(ids@.skip(0) =~= ids@);
        while i < ids.len()
            invariant
                i <= ids@.len(),
                self.wf(),
                *self.maps() == *old(self).maps(),
                self.tree() == old(self).tree(),
                self.outcomes() == old(self).outcomes(),
                goal == kept(
                    old(self).maps(),
                    old(self).outcomes(),
                    old(self).tree(),
                    ids@,
                    Seq::<i64>::empty(),
                ),
                goal == kept(
                    self.maps(),
                    self.outcomes(),
                    self.tree(),
                    ids@.skip(i as int),
                    keep@,
                ),
            decreases ids@.len() - i,
        {
            let id = ids[i];
            proof {
                assert(ids@.skip(i as int)[0] == id);
                assert(ids@.skip(i as int).drop_first() =~= ids@.skip(i + 1));
            }
            let maps = self.maps;
            let file = match maps.file(id) {
                Ok(file) => file,
                Err(e) => {
                    return Err(Error::Collections(e));
                },
            };
            match self.filter_item(&file) {
                Ok(pass) => {
                    if pass {
                        keep.push(id);
                    }
                },
                Err(e) => {
                    return Err(e);
                },
            }
            i += 1;
        }
        Ok(keep)
    }
}

/// The ids of the files of the maps that pass a filter, in the order of the
/// maps, given the outcomes of the shell commands that the filter names.
pub fn filter_dsl(data: &Maps, filter: &Expression, outcomes: &VecMap<String, bool>) -> (r: Result<
    Vec<Fid>,
    Error,
>)
    requires
        data.wf(),
        outcomes.wf(),
    ensures
        match kept(data, outcomes@, filter@, data.file_order(), Seq::<i64>::empty()) {
            Ok(keep) => r matches Ok(v) && v@ == keep,
            Err(f) => r matches Err(e) && e@ == f,
        },
{
    proof {
        data.lemma_wf();
    }
    let ids = ordered_uids(data.fids());
    let mut filter = DslFilter::new(data, filter.as_ast(), outcomes);
    filter.filter(ids)
}

/// Filters files by what a shell command made of their paths.
pub struct PipeFilter<'q> {
    maps: &'q Maps,
    command: &'q str,
    output: Option<String>,
}

/// What a pipe without output reports.
pub open spec fn no_output() -> Fault {
    Fault::Data(data::Fault::WrongState { state: "pipe"@, operation: "filter"@ })
}

impl<'q> PipeFilter<'q> {
    /// The maps are well formed.
    pub closed spec fn wf(&self) -> bool {
        self.maps.wf()
    }

    /// The maps that the files are in.
    pub closed spec fn maps(&self) -> &Maps {
        self.maps
    }

    /// The shell command.
    pub closed spec fn command(&self) -> Seq<char> {
        self.command@
    }

    /// What the shell command printed, once it has run.
    pub closed spec fn output(&self) -> Option<Seq<char>> {
        match self.output {
            Some(s) => Some(s@),
            None => None,
        }
    }

    /// A filter by the shell command `command`, which has not run yet.
    pub fn new(maps: &'q Maps, command: &'q str) -> (f: Self)
        requires
            maps.wf(),
        ensures
            f.wf(),
            *f.maps() == *maps,
            f.command() == command@,
            f.output() is None,
    {
        PipeFilter { maps, command, output: None }
    }

    /// The shell command.
    pub fn command_line(&self) -> (c: &'q str)
        ensures
            c@ == self.command(),
    {
        self.command
    }

    /// The text that the command is to be fed for a list of ids: the paths of
    /// their files, each followed by a line feed.
    pub fn input(&self, ids: &Vec<Fid>) -> (r: Result<String, Error>)
        requires
            self.wf(),
        ensures
            match fed(self.maps(), ids@, Seq::<char>::empty()) {
                Ok(text) => r matches Ok(s) && s@ == text,
                Err(f) => r matches Err(e) && e@ == f,
            },
    {
        let mut text: Vec<char> = Vec::new();
        let mut i: usize = 0;
        assert(ids@.skip(0) =~= ids@);
        while i < ids.len()
            invariant
                i <= ids@.len(),
                self.wf(),
                fed(self.maps(), ids@, Seq::<char>::empty()) == fed(
                    self.maps(),
                    ids@.skip(i as int),
                    text@,
                ),
            decreases ids@.len() - i,
        {
            let id = ids[i];
            proof {
                assert(ids@.skip(i as int)[0] == id);
                assert(ids@.skip(i as int).drop_first() =~= ids@.skip(i + 1));
            }
            let file = match self.maps.file(id) {
                Ok(file) => file,
                Err(e) => {
                    return Err(Error::Collections(e));
                },
            };
            let ghost before = text@;
            append_str(&mut text, file.path());
            text.push('\n');
            proof {
                assert(file@ == self.maps().file_map()[id as int]);
                assert(text@ =~= before + self.maps().file_map()[id as int].path + seq!['\n']);
            }
            i += 1;
        }
        Ok(collect(&text))
    }

    /// The filter with what the command printed.
    pub fn with_output(self, output: String) -> (f: Self)
        ensures
            f.wf() == self.wf(),
            *f.maps() == *self.maps(),
            f.command() == self.command(),
            f.output() == Some(output@),
    {
        PipeFilter { maps: self.maps, command: self.command, output: Some(output) }
    }
}

impl<'q> Filter for PipeFilter<'q> {
    open spec fn ready(&self) -> bool {
        self.wf()
    }

    open spec fn filtered(&self, ids: Seq<i64>) -> Result<Seq<i64>, Fault> {
        match self.output() {
            None => Err(no_output()),
            Some(output) => piped(self.maps(), split(output, seq!['\n']), Seq::<i64>::empty()),
        }
    }

    fn filter(&mut self, ids: Vec<Fid>) -> (r: Result<Vec<Fid>, Error>) {
        let output = match &self.output {
            Some(output) => output,
            None => {
                return Err(
                    Error::Data(
                        data::Error::WrongState {
                            state: "pipe".to_owned(),
                            operation: "filter".to_owned(),
                        },
                    ),
                );
            },
        };
        read_output(self.maps, output.as_str())
    }
}

/// The ids of the files whose paths a shell command printed, one on each
/// line.
pub fn read_output(maps: &Maps, output: &str) -> (r: Result<Vec<Fid>, Error>)
    requires
        maps.wf(),
    ensures
        match piped(maps, split(output@, seq!['\n']), Seq::<i64>::empty()) {
            Ok(keep) => r matches Ok(v) && v@ == keep,
            Err(f) => r matches Err(e) && e@ == f,
        },
{
    let text = to_chars(output);
    let mut feed: Vec<char> = Vec::new();
    feed.push('\n');
    assert(feed@ =~= seq!['\n']);
    let lines = split_chars(&text, &feed);
    let mut keep: Vec<Fid> = Vec::new();
    let mut i: usize = 0;
    let ghost all = pieces(lines@);
    assert(all.skip(0) =~= all);
    while i < lines.len()
        invariant
            i <= lines@.len(),
            maps.wf(),
            all == pieces(lines@),
            all == split(output@, seq!['\n']),
            piped(maps, all, Seq::<i64>::empty()) == piped(maps, all.skip(i as int), keep@),
        decreases lines@.len() - i,
    {
        proof {
            assert(all.skip(i as int)[0] == lines@[i as int]@);
            assert(all.skip(i as int).drop_first() =~= all.skip(i + 1));
        }
        if lines[i].len() > 0 {
            let path = collect(&lines[i]);
            match maps.by_path(path.as_str()) {
                Some(id) => {
                    keep.push(id);
                },
                None => {
                    return Err(Error::Data(data::Error::UnknownStrId { id: path }));
                },
            }
        }
        i += 1;
    }
    Ok(keep)
}

} // verus!
