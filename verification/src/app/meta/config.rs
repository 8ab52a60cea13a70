//! The configuration as it is written down: dictionary, templates and
//! conventions, before anything is compiled.
use crate::expression::error::{Error, Fault};
use crate::expression::expansion::{expansion, Expansions};
use crate::expression::expression::text_opt;
use crate::util::table::VecMap;
use vstd::prelude::*;

verus! {

/// The whole configuration.
#[derive(Debug)]
pub struct Config {
    /// The replacement of each macro name.
    pub dictionary: Option<VecMap<String, String>>,
    /// The conventions, in the order in which they are enforced.
    pub conventions: Option<Vec<Convention>>,
    /// The templates, by name.
    pub templates: Option<VecMap<String, Template>>,
}

/// The three texts of a query: what selects in the store, what filters the
/// selection, and the shell command that it is piped through.
#[derive(Debug, Clone, Copy)]
pub struct Pipeline<'a> {
    pub query: Option<&'a str>,
    pub filter: Option<&'a str>,
    pub pipe: Option<&'a str>,
}

/// The view of a borrowed text that may be missing.
pub open spec fn str_opt(s: Option<&str>) -> Option<Seq<char>> {
    match s {
        None => None,
        Some(s) => Some(s@),
    }
}

impl<'a> Pipeline<'a> {
    /// A pipeline without any text.
    pub fn new() -> (p: Self)
        ensures
            p.query is None,
            p.filter is None,
            p.pipe is None,
    {
        Pipeline { query: None, filter: None, pipe: None }
    }

    /// The pipeline with `query` as what selects in the store.
    pub fn with_query(self, query: &'a str) -> (p: Self)
        ensures
            p.query == Some(query),
            p.filter == self.filter,
            p.pipe == self.pipe,
    {
        let mut this = self;
        this.query = Some(query);
        this
    }

    /// The pipeline with `filter` as what filters the selection.
    pub fn with_filter(self, filter: &'a str) -> (p: Self)
        ensures
            p.query == self.query,
            p.filter == Some(filter),
            p.pipe == self.pipe,
    {
        let mut this = self;
        this.filter = Some(filter);
        this
    }

    /// The pipeline with `pipe` as the shell command that the selection is
    /// piped through.
    pub fn with_pipe(self, pipe: &'a str) -> (p: Self)
        ensures
            p.query == self.query,
            p.filter == self.filter,
            p.pipe == Some(pipe),
    {
        let mut this = self;
        this.pipe = Some(pipe);
        this
    }

    /// The pipeline of the three options of a command line.
    pub fn from_options(query: Option<&'a str>, filter: Option<&'a str>, pipe: Option<&'a str>) -> (p:
        Self)
        ensures
            p.query == query,
            p.filter == filter,
            p.pipe == pipe,
    {
        Pipeline { query, filter, pipe }
    }
}

/// The three texts of a query, as values of their own.
#[derive(Debug)]
pub struct PipelineBuf {
    pub query: Option<String>,
    pub filter: Option<String>,
    pub pipe: Option<String>,
}

/// A copy of a text that may be missing.
fn owned(s: Option<&str>) -> (r: Option<String>)
    ensures
        text_opt(r) == str_opt(s),
{
    match s {
        Some(s) => Some(s.to_owned()),
        None => None,
    }
}

/// A text that may be missing, borrowed.
fn borrowed(s: &Option<String>) -> (r: Option<&str>)
    ensures
        str_opt(r) == text_opt(*s),
{
    match s {
        Some(s) => Some(s.as_str()),
        None => None,
    }
}

/// What expanding a text that may be missing gives.
pub open spec fn expansion_opt(rules: crate::expression::expansion::Rules, s: Option<Seq<char>>) -> Result<
    Option<Seq<char>>,
    Fault,
> {
    match s {
        None => Ok(None),
        Some(s) => match expansion(rules, s, rules.limit) {
            Ok(t) => Ok(Some(t)),
            Err(e) => Err(e),
        },
    }
}

/// Expands a text that may be missing.
fn expand_opt(expansions: &Expansions, s: Option<String>) -> (r: Result<Option<String>, Error>)
    requires
        expansions.wf(),
    ensures
        match expansion_opt(expansions@, text_opt(s)) {
            Ok(t) => r matches Ok(x) && text_opt(x) == t,
            Err(f) => r matches Err(e) && e@ == f,
        },
{
    match s {
        None => Ok(None),
        Some(s) => match expansions.expand(s) {
            Ok(t) => Ok(Some(t)),
            Err(e) => Err(e),
        },
    }
}

impl PipelineBuf {
    /// The texts of a command of the configuration.
    pub fn from_config(config: Command) -> (p: Self)
        ensures
            p.query == config.query,
            p.filter == config.filter,
            p.pipe == config.pipe,
            text_opt(p.query) == config@.query,
            text_opt(p.filter) == config@.filter,
            text_opt(p.pipe) == config@.pipe,
    {
        PipelineBuf { query: config.query, filter: config.filter, pipe: config.pipe }
    }

    /// Copies of the texts of a pipeline.
    pub fn from_pipeline(pipeline: &Pipeline) -> (p: Self)
        ensures
            text_opt(p.query) == str_opt(pipeline.query),
            text_opt(p.filter) == str_opt(pipeline.filter),
            text_opt(p.pipe) == str_opt(pipeline.pipe),
    {
        PipelineBuf {
            query: owned(pipeline.query),
            filter: owned(pipeline.filter),
            pipe: owned(pipeline.pipe),
        }
    }

    /// The texts, borrowed.
    pub fn as_pipeline<'a>(&'a self) -> (p: Pipeline<'a>)
        ensures
            str_opt(p.query) == text_opt(self.query),
            str_opt(p.filter) == text_opt(self.filter),
            str_opt(p.pipe) == text_opt(self.pipe),
    {
        Pipeline {
            query: borrowed(&self.query),
            filter: borrowed(&self.filter),
            pipe: borrowed(&self.pipe),
        }
    }

    /// Expands the macros in the query and in the filter; the pipe stays as
    /// it is. The error of the query comes before that of the filter.
    pub fn expand(self, expansions: &Expansions) -> (r: Result<Self, Error>)
        requires
            expansions.wf(),
        ensures
            match (
                expansion_opt(expansions@, text_opt(self.query)),
                expansion_opt(expansions@, text_opt(self.filter)),
            ) {
                (Ok(q), Ok(f)) => r matches Ok(p) && text_opt(p.query) == q && text_opt(p.filter)
                    == f && p.pipe == self.pipe,
                (Err(e), _) => r matches Err(x) && x@ == e,
                (Ok(_), Err(e)) => r matches Err(x) && x@ == e,
            },
    {
        let query = match expand_opt(expansions, self.query) {
            Ok(q) => q,
            Err(e) => {
                return Err(e);
            },
        };
        let filter = match expand_opt(expansions, self.filter) {
            Ok(f) => f,
            Err(e) => {
                return Err(e);
            },
        };
        Ok(PipelineBuf { query, filter, pipe: self.pipe })
    }
}

/// An action as a command line names it.
#[derive(Debug, PartialEq, Eq)]
pub enum CommandAction {
    Add(Vec<String>),
    Del(Vec<String>),
    Merge(String, String),
    Link(Vec<String>),
    Unlink(Vec<String>),
    Forget,
    Emit,
    Report(String),
}

/// An application of a template.
#[derive(Debug)]
pub struct Instance {
    pub name: String,
    pub args: Vec<String>,
}

/// A template: the names of its parameters and its commands.
#[derive(Debug)]
pub struct Template {
    pub parameters: Vec<String>,
    pub commands: Vec<Command>,
}

/// A command: the texts of a query and the tokens of its actions.
#[derive(Debug)]
pub struct Command {
    pub query: Option<String>,
    pub filter: Option<String>,
    pub pipe: Option<String>,
    pub actions: Vec<Vec<String>>,
}

/// A convention: applications of templates and commands of its own.
#[derive(Debug)]
pub struct Convention {
    pub comment: Option<String>,
    pub instances: Option<Vec<Instance>>,
    pub commands: Option<Vec<Command>>,
}

/// A command of the configuration, as plain values.
pub struct CommandText {
    pub query: Option<Seq<char>>,
    pub filter: Option<Seq<char>>,
    pub pipe: Option<Seq<char>>,
    pub actions: Seq<Seq<Seq<char>>>,
}

/// The views of a list of texts.
pub open spec fn texts(list: Seq<String>) -> Seq<Seq<char>> {
    list.map_values(|s: String| s@)
}

/// The views of a list of lists of texts.
pub open spec fn token_lists(lists: Seq<Vec<String>>) -> Seq<Seq<Seq<char>>> {
    lists.map_values(|l: Vec<String>| texts(l@))
}

impl View for Command {
    type V = CommandText;

    open spec fn view(&self) -> CommandText {
        CommandText {
            query: text_opt(self.query),
            filter: text_opt(self.filter),
            pipe: text_opt(self.pipe),
            actions: token_lists(self.actions@),
        }
    }
}

/// A copy of a list of texts.
pub fn clone_texts(list: &Vec<String>) -> (r: Vec<String>)
    ensures
        texts(r@) == texts(list@),
{
    let mut r: Vec<String> = Vec::new();
    let mut i: usize = 0;
    while i < list.len()
        invariant
            i <= list@.len(),
            texts(r@) == texts(list@).take(i as int),
        decreases list@.len() - i,
    {
        let ghost before = r@;
        r.push(list[i].clone());
        assert(texts(r@) =~= texts(before).push(list@[i as int]@));
        assert(texts(list@).take(i as int + 1) =~= texts(list@).take(i as int).push(
            list@[i as int]@,
        ));
        i += 1;
    }
    assert(texts(list@).take(i as int) =~= texts(list@));
    r
}

/// A copy of a text that may be missing.
pub fn clone_text(s: &Option<String>) -> (r: Option<String>)
    ensures
        text_opt(r) == text_opt(*s),
{
    match s {
        Some(s) => Some(s.clone()),
        None => None,
    }
}

impl Command {
    /// A copy of the command.
    pub fn replica(&self) -> (r: Self)
        ensures
            r@ == self@,
    {
        let mut actions: Vec<Vec<String>> = Vec::new();
        let mut i: usize = 0;
        while i < self.actions.len()
            invariant
                i <= self.actions@.len(),
                token_lists(actions@) == token_lists(self.actions@).take(i as int),
            decreases self.actions@.len() - i,
        {
            let tokens = clone_texts(&self.actions[i]);
            proof {
                assert(token_lists(actions@.push(tokens)) =~= token_lists(actions@).push(
                    texts(tokens@),
                ));
                assert(token_lists(self.actions@).take(i as int + 1) =~= token_lists(
                    self.actions@,
                ).take(i as int).push(texts(self.actions@[i as int]@)));
            }
            actions.push(tokens);
            i += 1;
        }
        assert(token_lists(self.actions@).take(i as int) =~= token_lists(self.actions@));
        Command {
            query: clone_text(&self.query),
            filter: clone_text(&self.filter),
            pipe: clone_text(&self.pipe),
            actions,
        }
    }
}

} // verus!
