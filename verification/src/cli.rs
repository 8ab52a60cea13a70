//! The commands of the program, as the arguments of its command line name
//! them.
//!
//! The arguments come as they were matched: the values and the flags of a
//! command, and the command that was given under it, if one was.
use crate::app::meta::action::{named, Deed};
use crate::app::meta::config::{clone_texts, texts, CommandAction, PipelineBuf};
use crate::defaults::{config_path, data_path, joined, CONFIG_NAME, DATABASE_PATH};
use crate::expression::expression::text_opt;
use crate::util::string::same_text;
use vstd::prelude::*;

verus! {

/// An error of the command line.
#[derive(Debug, PartialEq, Eq)]
pub enum Error {
    /// An argument is missing or is not one of those that can be given.
    ArgumentError { message: String },
}

/// An [`Error`] with its text as a sequence of characters.
pub enum Fault {
    ArgumentError { message: Seq<char> },
}

impl View for Error {
    type V = Fault;

    open spec fn view(&self) -> Fault {
        match self {
            Error::ArgumentError { message } => Fault::ArgumentError { message: message@ },
        }
    }
}

/// The arguments of one command as they were matched.
#[derive(Debug)]
pub struct Matches {
    /// The values that were given, by the names of their arguments.
    pub values: Vec<(String, Vec<String>)>,
    /// The flags that were given.
    pub flags: Vec<String>,
    /// The command that was given under this one, with its arguments.
    pub subcommand: Option<(String, Box<Matches>)>,
}

/// [`Matches`] as plain values.
pub struct Matched {
    pub values: Seq<(Seq<char>, Seq<Seq<char>>)>,
    pub flags: Seq<Seq<char>>,
    pub subcommand: Option<(Seq<char>, Box<Matched>)>,
}

/// The values of the first argument of a list with a name.
pub open spec fn found(values: Seq<(Seq<char>, Seq<Seq<char>>)>, key: Seq<char>) -> Option<
    Seq<Seq<char>>,
>
    decreases values.len(),
{
    if values.len() == 0 {
        None
    } else if values[0].0 == key {
        Some(values[0].1)
    } else {
        found(values.drop_first(), key)
    }
}

impl Matched {
    /// All the values of an argument, if it was given.
    pub open spec fn values_of(self, key: Seq<char>) -> Option<Seq<Seq<char>>> {
        found(self.values, key)
    }

    /// The first value of an argument, if it was given one.
    pub open spec fn value_of(self, key: Seq<char>) -> Option<Seq<char>> {
        match found(self.values, key) {
            Some(v) => if v.len() > 0 {
                Some(v[0])
            } else {
                None
            },
            None => None,
        }
    }

    /// Whether a flag or an argument was given.
    pub open spec fn is_present(self, key: Seq<char>) -> bool {
        self.flags.contains(key) || found(self.values, key) is Some
    }

    /// The arguments of the command that was given under this one, if it has
    /// the name `name`.
    pub open spec fn sub(self, name: Seq<char>) -> Option<Matched> {
        match self.subcommand {
            Some((n, m)) => if n == name {
                Some(*m)
            } else {
                None
            },
            None => None,
        }
    }
}

/// The values of a list of arguments, as plain values.
pub open spec fn value_views(values: Seq<(String, Vec<String>)>) -> Seq<
    (Seq<char>, Seq<Seq<char>>),
> {
    values.map_values(|p: (String, Vec<String>)| (p.0@, texts(p.1@)))
}

impl Matches {
    /// The arguments as plain values.
    pub open spec fn matched(&self) -> Matched
        decreases self,
    {
        Matched {
            values: value_views(self.values@),
            flags: texts(self.flags@),
            subcommand: match self.subcommand {
                None => None,
                Some((name, inner)) => Some((name@, Box::new(inner.matched()))),
            },
        }
    }

    /// All the values of an argument, if it was given.
    pub fn values_of(&self, key: &str) -> (r: Option<&Vec<String>>)
        ensures
            match self.matched().values_of(key@) {
                Some(v) => r matches Some(list) && texts(list@) == v,
                None => r is None,
            },
    {
        let mut i: usize = 0;
        let ghost all = value_views(self.values@);
        assert(all.skip(0) =~= all);
        while i < self.values.len()
            invariant
                i <= self.values@.len(),
                all == value_views(self.values@),
                found(all, key@) == found(all.skip(i as int), key@),
            decreases self.values@.len() - i,
        {
            proof {
                assert(all.skip(i as int)[0] == all[i as int]);
                assert(all.skip(i as int).drop_first() =~= all.skip(i + 1));
            }
            if same_text(self.values[i].0.as_str(), key) {
                return Some(&self.values[i].1);
            }
            i += 1;
        }
        None
    }

    /// The first value of an argument, if it was given one.
    pub fn value_of(&self, key: &str) -> (r: Option<&str>)
        ensures
            match self.matched().value_of(key@) {
                Some(v) => r matches Some(s) && s@ == v,
                None => r is None,
            },
    {
        match self.values_of(key) {
            Some(list) => if list.len() > 0 {
                Some(list[0].as_str())
            } else {
                None
            },
            None => None,
        }
    }

    /// Whether a flag or an argument was given.
    pub fn is_present(&self, key: &str) -> (b: bool)
        ensures
            b == self.matched().is_present(key@),
    {
        let mut i: usize = 0;
        let ghost flags = texts(self.flags@);
        while i < self.flags.len()
            invariant
                i <= self.flags@.len(),
                flags == texts(self.flags@),
                forall|k: int| 0 <= k < i ==> flags[k] != key@,
            decreases self.flags@.len() - i,
        {
            if same_text(self.flags[i].as_str(), key) {
                assert(flags[i as int] == key@);
                return true;
            }
            i += 1;
        }
        self.values_of(key).is_some()
    }

    /// The arguments of the command that was given under this one, if it has
    /// the name `name`.
    pub fn subcommand_matches(&self, name: &str) -> (r: Option<&Matches>)
        ensures
            match self.matched().sub(name@) {
                Some(m) => r matches Some(inner) && inner.matched() == m,
                None => r is None,
            },
    {
        match &self.subcommand {
            Some((n, inner)) => if same_text(n.as_str(), name) {
                Some(&**inner)
            } else {
                None
            },
            None => None,
        }
    }
}

/// What the `query` command is to do with its results.
#[derive(Debug)]
pub enum QueryCommand {
    /// Print the paths of the files.
    Output(PipelineBuf),
    /// Run an action on each file; the flag says whether to commit.
    Apply(PipelineBuf, CommandAction, bool),
    /// Print the number of files.
    Count(PipelineBuf),
    /// Print the files with their tags, in a format.
    Serialize(PipelineBuf, Option<String>),
}

/// What the `tag` command is to do.
#[derive(Debug, PartialEq, Eq)]
pub enum TagCommand {
    List,
    Clean,
    Statistics(Option<String>),
}

/// What the `convention` command is to do.
#[derive(Debug, Clone, Copy, PartialEq, Eq, Structural)]
pub enum ConventionCommand {
    Record,
    Enforce(bool),
}

/// A command of the program.
#[derive(Debug)]
pub enum Command {
    /// Update the index for these paths; the flag says whether to delete the
    /// tags that are left without files afterwards.
    Update(Vec<String>, bool),
    Query(QueryCommand),
    Convention(ConventionCommand),
    Tag(TagCommand),
    /// Nothing.
    Nop,
}

/// The three texts of a pipeline, as plain values.
pub struct Texts {
    pub query: Option<Seq<char>>,
    pub filter: Option<Seq<char>>,
    pub pipe: Option<Seq<char>>,
}

/// A [`QueryCommand`] as plain values.
pub enum QueryOrder {
    Output(Texts),
    Apply(Texts, Deed, bool),
    Count(Texts),
    Serialize(Texts, Option<Seq<char>>),
}

/// A [`TagCommand`] as plain values.
pub enum TagOrder {
    List,
    Clean,
    Statistics(Option<Seq<char>>),
}

/// A [`Command`] as plain values.
pub enum Order {
    Update(Seq<Seq<char>>, bool),
    Query(QueryOrder),
    Convention(ConventionCommand),
    Tag(TagOrder),
    Nop,
}

/// The texts of a pipeline, as plain values.
pub open spec fn pipeline_texts(p: PipelineBuf) -> Texts {
    Texts { query: text_opt(p.query), filter: text_opt(p.filter), pipe: text_opt(p.pipe) }
}

impl View for QueryCommand {
    type V = QueryOrder;

    open spec fn view(&self) -> QueryOrder {
        match self {
            QueryCommand::Output(p) => QueryOrder::Output(pipeline_texts(*p)),
            QueryCommand::Apply(p, a, c) => QueryOrder::Apply(pipeline_texts(*p), named(a), *c),
            QueryCommand::Count(p) => QueryOrder::Count(pipeline_texts(*p)),
            QueryCommand::Serialize(p, f) => QueryOrder::Serialize(pipeline_texts(*p), text_opt(*f)),
        }
    }
}

impl View for TagCommand {
    type V = TagOrder;

    open spec fn view(&self) -> TagOrder {
        match self {
            TagCommand::List => TagOrder::List,
            TagCommand::Clean => TagOrder::Clean,
            TagCommand::Statistics(t) => TagOrder::Statistics(text_opt(*t)),
        }
    }
}

impl View for Command {
    type V = Order;

    open spec fn view(&self) -> Order {
        match self {
            Command::Update(paths, clean) => Order::Update(texts(paths@), *clean),
            Command::Query(q) => Order::Query(q@),
            Command::Convention(c) => Order::Convention(*c),
            Command::Tag(t) => Order::Tag(t@),
            Command::Nop => Order::Nop,
        }
    }
}

/// The view of what a function of the command line returns.
pub open spec fn outcome<T: View>(r: Result<T, Error>) -> Result<T::V, Fault> {
    match r {
        Ok(v) => Ok(v@),
        Err(e) => Err(e@),
    }
}

/// What is reported where a value that a command needs was not given.
pub open spec fn missing() -> Fault {
    Fault::ArgumentError { message: "missing argument value"@ }
}

/// The texts of the pipeline of a `query` command: the argument `QUERY` and
/// the options `filter` and `pipe`.
pub open spec fn query_texts(m: Matched) -> Texts {
    Texts { query: m.value_of("QUERY"@), filter: m.value_of("filter"@), pipe: m.value_of("pipe"@) }
}

/// All the values of an argument that is needed.
pub open spec fn needed_values(m: Matched, key: Seq<char>) -> Result<Seq<Seq<char>>, Fault> {
    match m.values_of(key) {
        Some(v) => Ok(v),
        None => Err(missing()),
    }
}

/// The first value of an argument that is needed.
pub open spec fn needed_value(m: Matched, key: Seq<char>) -> Result<Seq<char>, Fault> {
    match m.value_of(key) {
        Some(v) => Ok(v),
        None => Err(missing()),
    }
}

/// The action that the arguments of a `map` command name: `add` and `del`
/// with their `TAGS`, `forget`, `report` with its `MSG`, `link` and `unlink`
/// with their `DSTS`, or `merge` with its `SRC` and `DST`. Any other command,
/// and none, is refused.
pub open spec fn mapping(m: Matched) -> Result<Deed, Fault> {
    if let Some(o) = m.sub("add"@) {
        match needed_values(o, "TAGS"@) {
            Ok(v) => Ok(Deed::Add(v)),
            Err(e) => Err(e),
        }
    } else if m.sub("forget"@) is Some {
        Ok(Deed::Forget)
    } else if let Some(o) = m.sub("del"@) {
        match needed_values(o, "TAGS"@) {
            Ok(v) => Ok(Deed::Del(v)),
            Err(e) => Err(e),
        }
    } else if let Some(o) = m.sub("report"@) {
        match needed_value(o, "MSG"@) {
            Ok(v) => Ok(Deed::Report(v)),
            Err(e) => Err(e),
        }
    } else if let Some(o) = m.sub("link"@) {
        match needed_values(o, "DSTS"@) {
            Ok(v) => Ok(Deed::Link(v)),
            Err(e) => Err(e),
        }
    } else if let Some(o) = m.sub("unlink"@) {
        match needed_values(o, "DSTS"@) {
            Ok(v) => Ok(Deed::Unlink(v)),
            Err(e) => Err(e),
        }
    } else if let Some(o) = m.sub("merge"@) {
        match (needed_value(o, "SRC"@), needed_value(o, "DST"@)) {
            (Ok(s), Ok(d)) => Ok(Deed::Merge(s, d)),
            (Err(e), _) => Err(e),
            (_, Err(e)) => Err(e),
        }
    } else {
        Err(Fault::ArgumentError { message: "map requires a subcommand"@ })
    }
}

/// What the arguments of a `query` command ask for: `count`, `serialize`
/// with its `FORMAT`, `map` with its action and the flag `commit`, or, with
/// none of them, the paths.
pub open spec fn queried(m: Matched) -> Result<QueryOrder, Fault> {
    let pipeline = query_texts(m);
    if m.sub("count"@) is Some {
        Ok(QueryOrder::Count(pipeline))
    } else if let Some(o) = m.sub("serialize"@) {
        Ok(QueryOrder::Serialize(pipeline, o.value_of("FORMAT"@)))
    } else if let Some(o) = m.sub("map"@) {
        match mapping(o) {
            Ok(deed) => Ok(QueryOrder::Apply(pipeline, deed, o.is_present("commit"@))),
            Err(e) => Err(e),
        }
    } else {
        Ok(QueryOrder::Output(pipeline))
    }
}

/// What the arguments of a `tag` command ask for: `clean`, `statistics` with
/// its `TAG`, or else the list.
pub open spec fn tagged(m: Matched) -> TagOrder {
    if m.sub("clean"@) is Some {
        TagOrder::Clean
    } else if let Some(o) = m.sub("statistics"@) {
        TagOrder::Statistics(o.value_of("TAG"@))
    } else {
        TagOrder::List
    }
}

/// The command that the arguments of the program name: `update` with its
/// `PATH`s and the flag `clean`, `tag`, `query`, `convention` with `enforce`
/// and the flag `commit` or with `record`, or nothing.
pub open spec fn commanded(m: Matched) -> Result<Order, Fault> {
    if let Some(o) = m.sub("update"@) {
        match needed_values(o, "PATH"@) {
            Ok(paths) => Ok(Order::Update(paths, o.is_present("clean"@))),
            Err(e) => Err(e),
        }
    } else if let Some(o) = m.sub("tag"@) {
        Ok(Order::Tag(tagged(o)))
    } else if let Some(o) = m.sub("query"@) {
        match queried(o) {
            Ok(q) => Ok(Order::Query(q)),
            Err(e) => Err(e),
        }
    } else if let Some(o) = m.sub("convention"@) {
        if let Some(x) = o.sub("enforce"@) {
            Ok(Order::Convention(ConventionCommand::Enforce(x.is_present("commit"@))))
        } else if o.sub("record"@) is Some {
            Ok(Order::Convention(ConventionCommand::Record))
        } else {
            Err(Fault::ArgumentError { message: "convention requires a subcommand"@ })
        }
    } else {
        Ok(Order::Nop)
    }
}

/// A copy of a text that may be missing.
fn owned(s: Option<&str>) -> (r: Option<String>)
    ensures
        match s {
            Some(t) => r matches Some(x) && x@ == t@,
            None => r is None,
        },
{
    match s {
        Some(s) => Some(s.to_owned()),
        None => None,
    }
}

/// The error of a value that is missing.
fn missing_value() -> (e: Error)
    ensures
        e@ == missing(),
{
    Error::ArgumentError { message: "missing argument value".to_owned() }
}

/// All the values of an argument that is needed.
fn values(m: &Matches, key: &str) -> (r: Result<Vec<String>, Error>)
    ensures
        match needed_values(m.matched(), key@) {
            Ok(v) => r matches Ok(list) && texts(list@) == v,
            Err(f) => r matches Err(e) && e@ == f,
        },
{
    match m.values_of(key) {
        Some(list) => Ok(clone_texts(list)),
        None => Err(missing_value()),
    }
}

/// The first value of an argument that is needed.
fn value(m: &Matches, key: &str) -> (r: Result<String, Error>)
    ensures
        match needed_value(m.matched(), key@) {
            Ok(v) => r matches Ok(s) && s@ == v,
            Err(f) => r matches Err(e) && e@ == f,
        },
{
    match m.value_of(key) {
        Some(s) => Ok(s.to_owned()),
        None => Err(missing_value()),
    }
}

/// The texts of the pipeline of a `query` command.
fn pipeline(m: &Matches) -> (p: PipelineBuf)
    ensures
        pipeline_texts(p) == query_texts(m.matched()),
{
    PipelineBuf {
        query: owned(m.value_of("QUERY")),
        filter: owned(m.value_of("filter")),
        pipe: owned(m.value_of("pipe")),
    }
}

/// The action that the arguments of a `map` command name.
pub fn action(m: &Matches) -> (r: Result<CommandAction, Error>)
    ensures
        match mapping(m.matched()) {
            Ok(deed) => r matches Ok(a) && named(&a) == deed,
            Err(f) => r matches Err(e) && e@ == f,
        },
{
    if let Some(o) = m.subcommand_matches("add") {
        match values(o, "TAGS") {
            Ok(v) => Ok(CommandAction::Add(v)),
            Err(e) => Err(e),
        }
    } else if m.subcommand_matches("forget").is_some() {
        Ok(CommandAction::Forget)
    } else if let Some(o) = m.subcommand_matches("del") {
        match values(o, "TAGS") {
            Ok(v) => Ok(CommandAction::Del(v)),
            Err(e) => Err(e),
        }
    } else if let Some(o) = m.subcommand_matches("report") {
        match value(o, "MSG") {
            Ok(v) => Ok(CommandAction::Report(v)),
            Err(e) => Err(e),
        }
    } else if let Some(o) = m.subcommand_matches("link") {
        match values(o, "DSTS") {
            Ok(v) => Ok(CommandAction::Link(v)),
            Err(e) => Err(e),
        }
    } else if let Some(o) = m.subcommand_matches("unlink") {
        match values(o, "DSTS") {
            Ok(v) => Ok(CommandAction::Unlink(v)),
            Err(e) => Err(e),
        }
    } else if let Some(o) = m.subcommand_matches("merge") {
        let src = match value(o, "SRC") {
            Ok(s) => s,
            Err(e) => {
                return Err(e);
            },
        };
        match value(o, "DST") {
            Ok(dst) => Ok(CommandAction::Merge(src, dst)),
            Err(e) => Err(e),
        }
    } else {
        Err(Error::ArgumentError { message: "map requires a subcommand".to_owned() })
    }
}

/// What the arguments of a `query` command ask for.
pub fn query(m: &Matches) -> (r: Result<QueryCommand, Error>)
    ensures
        outcome(r) == queried(m.matched()),
{
    if m.subcommand_matches("count").is_some() {
        Ok(QueryCommand::Count(pipeline(m)))
    } else if let Some(o) = m.subcommand_matches("serialize") {
        Ok(QueryCommand::Serialize(pipeline(m), owned(o.value_of("FORMAT"))))
    } else if let Some(o) = m.subcommand_matches("map") {
        match action(o) {
            Ok(a) => Ok(QueryCommand::Apply(pipeline(m), a, o.is_present("commit"))),
            Err(e) => Err(e),
        }
    } else {
        Ok(QueryCommand::Output(pipeline(m)))
    }
}

/// What the arguments of a `tag` command ask for.
pub fn tag(m: &Matches) -> (t: TagCommand)
    ensures
        t@ == tagged(m.matched()),
{
    if m.subcommand_matches("clean").is_some() {
        TagCommand::Clean
    } else if let Some(o) = m.subcommand_matches("statistics") {
        TagCommand::Statistics(owned(o.value_of("TAG")))
    } else {
        TagCommand::List
    }
}

/// The command that the arguments of the program name.
pub fn command(m: &Matches) -> (r: Result<Command, Error>)
    ensures
        outcome(r) == commanded(m.matched()),
{
    if let Some(o) = m.subcommand_matches("update") {
        match values(o, "PATH") {
            Ok(paths) => Ok(Command::Update(paths, o.is_present("clean"))),
            Err(e) => Err(e),
        }
    } else if let Some(o) = m.subcommand_matches("tag") {
        Ok(Command::Tag(tag(o)))
    } else if let Some(o) = m.subcommand_matches("query") {
        match query(o) {
            Ok(q) => Ok(Command::Query(q)),
            Err(e) => Err(e),
        }
    } else if let Some(o) = m.subcommand_matches("convention") {
        if let Some(x) = o.subcommand_matches("enforce") {
            Ok(Command::Convention(ConventionCommand::Enforce(x.is_present("commit"))))
        } else if o.subcommand_matches("record").is_some() {
            Ok(Command::Convention(ConventionCommand::Record))
        } else {
            Err(Error::ArgumentError { message: "convention requires a subcommand".to_owned() })
        }
    } else {
        Ok(Command::Nop)
    }
}

/// Where the store and the configuration are.
#[derive(Debug, PartialEq, Eq)]
pub struct Config {
    /// The path of the database file.
    pub database: String,
    /// The path of the configuration file.
    pub config: String,
}

/// The places that the arguments of the program name: the options
/// `database` and `config`, or else the usual files under the directories
/// for data and for configurations.
pub fn config(m: &Matches, data_home: &str, config_home: &str) -> (c: Config)
    ensures
        c.database@ == match m.matched().value_of("database"@) {
            Some(path) => path,
            None => joined(joined(data_home@, "tag"@), "db.sqlite"@),
        },
        c.config@ == match m.matched().value_of("config"@) {
            Some(path) => path,
            None => joined(joined(config_home@, "tag"@), "config.yaml"@),
        },
{
    let database = match m.value_of("database") {
        Some(path) => path.to_owned(),
        None => data_path(data_home, DATABASE_PATH),
    };
    let config = match m.value_of("config") {
        Some(path) => path.to_owned(),
        None => config_path(config_home, CONFIG_NAME),
    };
    Config { database, config }
}

/// The formats in which files are serialized.
#[derive(Debug, Clone, Copy, PartialEq, Eq, Structural)]
pub enum Format {
    Yaml,
    Json,
    Plain,
}

/// The format that a name stands for: `yaml`, `json` or `plain`; without a
/// name it is plain. Any other name is refused, with the name as the message.
pub open spec fn format_named(name: Option<Seq<char>>) -> Result<Format, Fault> {
    match name {
        None => Ok(Format::Plain),
        Some(n) => if n == "yaml"@ {
            Ok(Format::Yaml)
        } else if n == "json"@ {
            Ok(Format::Json)
        } else if n == "plain"@ {
            Ok(Format::Plain)
        } else {
            Err(Fault::ArgumentError { message: n })
        },
    }
}

/// The format that a name stands for.
pub fn format(name: Option<&str>) -> (r: Result<Format, Error>)
    ensures
        match format_named(
            match name {
                Some(n) => Some(n@),
                None => None,
            },
        ) {
            Ok(f) => r == Ok::<Format, Error>(f),
            Err(f) => r matches Err(e) && e@ == f,
        },
{
    match name {
        None => Ok(Format::Plain),
        Some(n) => {
            if same_text(n, "yaml") {
                Ok(Format::Yaml)
            } else if same_text(n, "json") {
                Ok(Format::Json)
            } else if same_text(n, "plain") {
                Ok(Format::Plain)
            } else {
                Err(Error::ArgumentError { message: n.to_owned() })
            }
        },
    }
}

} // verus!
