//! Actions: what is done to each file that a query selects.
use crate::app::attr::file::{inside, link_name_of, stores, File, State, Store};
use crate::app::data::query::forcings::{Forced, Forcings};
use crate::app::data::query::maps::{tag_names, FileView, Maps};
use crate::app::data::query::state::Results;
use crate::app::meta::api::reversed;
use crate::app::meta::config::{clone_texts, texts, CommandAction};
use crate::app::meta::error::{Error, Fault};
use crate::model::file;
use crate::model::file::FileRow;
use crate::util::error as any;
use crate::util::string::{append, append_str, collect, join, join_chars, pieces, same_text, to_chars};
use vstd::prelude::*;

verus! {

/// The verb of a report.
pub const REPORT: &'static str = "report";

/// The verb that removes links.
pub const UNLINK: &'static str = "unlink";

/// The verb that makes links.
pub const LINK: &'static str = "link";

/// The verb that adds tags.
pub const ADD: &'static str = "add";

/// The verb that takes tags away.
pub const DEL: &'static str = "del";

/// The verb that renames a tag.
pub const MERGE: &'static str = "merge";

/// The verb that drops files from the index.
pub const FORGET: &'static str = "forget";

/// The verb that writes the tags of the index to the files.
pub const EMIT: &'static str = "emit";

/// An action of the library itself.
#[derive(Debug, PartialEq, Eq)]
pub enum ApiAction {
    /// Write the tags that the index has to the file.
    Emit,
    /// Drop the file from the index.
    Forget,
    /// Report the file with a message.
    Report(String),
}

/// An action on the tags or the links of a file.
#[derive(Debug, PartialEq, Eq)]
pub enum TagAction {
    /// Add each tag.
    Add(Vec<String>),
    /// Take each tag away.
    Del(Vec<String>),
    /// Rename a tag.
    Merge(String, String),
    /// Link the file into each directory.
    Link(Vec<String>),
    /// Remove the link to the file from each directory.
    Unlink(Vec<String>),
}

/// An action.
#[derive(Debug, PartialEq, Eq)]
pub enum Action {
    Api(ApiAction),
    Tag(TagAction),
}

/// An [`Action`] with its texts as sequences of characters.
pub enum Deed {
    Emit,
    Forget,
    Report(Seq<char>),
    Add(Seq<Seq<char>>),
    Del(Seq<Seq<char>>),
    Merge(Seq<char>, Seq<char>),
    Link(Seq<Seq<char>>),
    Unlink(Seq<Seq<char>>),
}

impl View for ApiAction {
    type V = Deed;

    open spec fn view(&self) -> Deed {
        match self {
            ApiAction::Emit => Deed::Emit,
            ApiAction::Forget => Deed::Forget,
            ApiAction::Report(m) => Deed::Report(m@),
        }
    }
}

impl View for TagAction {
    type V = Deed;

    open spec fn view(&self) -> Deed {
        match self {
            TagAction::Add(s) => Deed::Add(texts(s@)),
            TagAction::Del(s) => Deed::Del(texts(s@)),
            TagAction::Merge(s, d) => Deed::Merge(s@, d@),
            TagAction::Link(s) => Deed::Link(texts(s@)),
            TagAction::Unlink(s) => Deed::Unlink(texts(s@)),
        }
    }
}

impl View for Action {
    type V = Deed;

    open spec fn view(&self) -> Deed {
        match self {
            Action::Api(a) => a@,
            Action::Tag(a) => a@,
        }
    }
}

/// What is to be done outside the library for an action on a file.
#[derive(Debug, PartialEq, Eq)]
pub enum Effect {
    /// A symbolic link to `source` is to be made at `link`.
    Link { source: String, link: String },
    /// The symbolic link at `link` is to be removed.
    Unlink { link: String },
    /// The attribute of the file at `path` is to be written.
    Store { path: String, store: Store },
}

/// A file that an action reported, with the message.
#[derive(Debug)]
pub struct FileReport {
    file: file::Borrow,
    message: String,
}

impl FileReport {
    /// The message.
    pub closed spec fn message(&self) -> Seq<char> {
        self.message@
    }

    /// The file.
    pub closed spec fn file(&self) -> FileRow {
        self.file@
    }

    /// The report as a line: the message, an arrow and the path.
    pub fn format(&self) -> (s: String)
        ensures
            s@ == self.message() + " -> "@ + self.file().path,
    {
        let mut out = to_chars(self.message.as_str());
        append_str(&mut out, " -> ");
        append_str(&mut out, self.file.path.as_str());
        collect(&out)
    }
}

/// The lines of a list of reports.
pub open spec fn report_lines(reports: Seq<FileReport>) -> Seq<Seq<char>> {
    reports.map_values(|r: FileReport| r.message() + " -> "@ + r.file().path)
}

/// The paths of a list of files.
pub open spec fn paths(files: Seq<file::Borrow>) -> Seq<Seq<char>> {
    files.map_values(|f: file::Borrow| f@.path)
}

/// The ids of a list of files.
pub open spec fn ids(files: Seq<file::Borrow>) -> Seq<i64> {
    files.map_values(|f: file::Borrow| f.id)
}

/// What one action did: the files that it went over, those whose tags
/// changed, those that are to be forgotten, and the messages.
#[derive(Debug)]
pub struct Report<'a> {
    action: &'a Action,
    files: Vec<file::Borrow>,
    updates: Vec<file::Borrow>,
    forgets: Vec<file::Borrow>,
    reports: Vec<FileReport>,
}

/// A [`Report`] as plain values.
pub struct Account {
    pub action: Deed,
    pub files: Seq<FileRow>,
    pub updates: Seq<FileRow>,
    pub forgets: Seq<FileRow>,
    pub reports: Seq<(FileRow, Seq<char>)>,
}

/// The rows of a list of files.
pub open spec fn rows(files: Seq<file::Borrow>) -> Seq<FileRow> {
    files.map_values(|f: file::Borrow| f@)
}

impl<'a> View for Report<'a> {
    type V = Account;

    closed spec fn view(&self) -> Account {
        Account {
            action: self.action@,
            files: rows(self.files@),
            updates: rows(self.updates@),
            forgets: rows(self.forgets@),
            reports: self.reports@.map_values(|r: FileReport| (r.file(), r.message())),
        }
    }
}

/// What the index is to be told after an action that was committed.
#[derive(Debug, PartialEq, Eq)]
pub struct Followup {
    /// The ids of the files that are to be forgotten.
    pub forget: Vec<i64>,
    /// The paths of the files whose tags changed, which are to be updated.
    pub update: Vec<String>,
}

/// A summary of what one action did, as texts.
#[derive(Debug, PartialEq, Eq)]
pub struct Summary {
    pub action: String,
    pub files: Vec<String>,
    pub updates: Vec<String>,
    pub forgets: Vec<String>,
    pub reports: Vec<String>,
}

/// The paths of a list of rows.
pub open spec fn row_paths(files: Seq<FileRow>) -> Seq<Seq<char>> {
    files.map_values(|f: FileRow| f.path)
}

/// Whether a summary gives an account as texts: the action, the paths of the
/// files, and each message as a line with an arrow and the path of its file.
pub open spec fn summarizes(s: Summary, account: Account) -> bool {
    &&& s.action@ == action_text(account.action)
    &&& texts(s.files@) == row_paths(account.files)
    &&& texts(s.updates@) == row_paths(account.updates)
    &&& texts(s.forgets@) == row_paths(account.forgets)
    &&& texts(s.reports@) == account.reports.map_values(
        |r: (FileRow, Seq<char>)| r.1 + " -> "@ + r.0.path,
    )
}

/// The paths of a list of files, as texts of their own.
fn path_list(files: &Vec<file::Borrow>) -> (list: Vec<String>)
    ensures
        texts(list@) == row_paths(rows(files@)),
{
    let mut list: Vec<String> = Vec::new();
    let mut i: usize = 0;
    let ghost all = row_paths(rows(files@));
    while i < files.len()
        invariant
            i <= files@.len(),
            all == row_paths(rows(files@)),
            texts(list@) == all.take(i as int),
        decreases files@.len() - i,
    {
        let ghost before = list@;
        list.push(files[i].path.clone());
        proof {
            assert(texts(list@) =~= texts(before).push(files@[i as int].path@));
            assert(all.take(i as int + 1) =~= all.take(i as int).push(all[i as int]));
        }
        i += 1;
    }
    assert(all.take(i as int) =~= all);
    list
}

impl<'a> Report<'a> {
    /// An empty report of an action.
    pub fn new(action: &'a Action) -> (r: Self)
        ensures
            r@ == (Account {
                action: action@,
                files: Seq::<FileRow>::empty(),
                updates: Seq::<FileRow>::empty(),
                forgets: Seq::<FileRow>::empty(),
                reports: Seq::<(FileRow, Seq<char>)>::empty(),
            }),
    {
        let r = Report {
            action,
            files: Vec::new(),
            updates: Vec::new(),
            forgets: Vec::new(),
            reports: Vec::new(),
        };
        assert(r@.files =~= Seq::<FileRow>::empty());
        assert(r@.updates =~= Seq::<FileRow>::empty());
        assert(r@.forgets =~= Seq::<FileRow>::empty());
        assert(r@.reports =~= Seq::<(FileRow, Seq<char>)>::empty());
        r
    }

    /// The report as texts: the action, the paths of the files, and the lines
    /// of the messages.
    pub fn summarize(&self) -> (s: Summary)
        ensures
            summarizes(s, self@),
    {
        let mut reports: Vec<String> = Vec::new();
        let mut i: usize = 0;
        let ghost lines = self@.reports.map_values(
            |r: (FileRow, Seq<char>)| r.1 + " -> "@ + r.0.path,
        );
        while i < self.reports.len()
            invariant
                i <= self.reports@.len(),
                lines == self@.reports.map_values(
                    |r: (FileRow, Seq<char>)| r.1 + " -> "@ + r.0.path,
                ),
                texts(reports@) == lines.take(i as int),
            decreases self.reports@.len() - i,
        {
            let line = self.reports[i].format();
            proof {
                assert(texts(reports@.push(line)) =~= texts(reports@).push(line@));
                assert(lines.take(i as int + 1) =~= lines.take(i as int).push(lines[i as int]));
            }
            reports.push(line);
            i += 1;
        }
        assert(lines.take(i as int) =~= lines);
        Summary {
            action: self.action.to_string(),
            files: path_list(&self.files),
            updates: path_list(&self.updates),
            forgets: path_list(&self.forgets),
            reports,
        }
    }

    /// The paths of the files whose tags changed.
    pub fn updates(&self) -> (list: Vec<String>)
        ensures
            texts(list@) == row_paths(self@.updates),
    {
        path_list(&self.updates)
    }

    /// The ids of the files that are to be forgotten.
    pub fn forgets(&self) -> (list: Vec<i64>)
        ensures
            list@ == self@.forgets.map_values(|f: FileRow| f.id as i64),
    {
        let mut list: Vec<i64> = Vec::new();
        let mut i: usize = 0;
        let ghost all = self@.forgets.map_values(|f: FileRow| f.id as i64);
        while i < self.forgets.len()
            invariant
                i <= self.forgets@.len(),
                all == self@.forgets.map_values(|f: FileRow| f.id as i64),
                list@ == all.take(i as int),
            decreases self.forgets@.len() - i,
        {
            list.push(self.forgets[i].id);
            assert(list@ =~= all.take(i as int + 1));
            i += 1;
        }
        assert(all.take(i as int) =~= all);
        list
    }

    /// What the index is to be told after the action: on commit, the ids of
    /// the files to forget and the paths of the files to update, as the
    /// report has them; without commit, nothing.
    pub fn followup(&self, commit: bool) -> (r: Option<Followup>)
        ensures
            !commit ==> r is None,
            commit ==> (r matches Some(f) && f.forget@ == self@.forgets.map_values(
                |f: FileRow| f.id as i64,
            ) && texts(f.update@) == row_paths(self@.updates)),
    {
        if commit {
            Some(Followup { forget: self.forgets(), update: self.updates() })
        } else {
            None
        }
    }

    /// Notes a file that the action went over.
    pub fn add_file(&mut self, file: file::Borrow)
        ensures
            final(self)@ == (Account { files: old(self)@.files.push(file@), ..old(self)@ }),
    {
        self.files.push(file);
        assert(self@.files =~= old(self)@.files.push(file@));
    }

    /// Notes a file whose tags changed.
    pub fn add_update(&mut self, file: file::Borrow)
        ensures
            final(self)@ == (Account { updates: old(self)@.updates.push(file@), ..old(self)@ }),
    {
        self.updates.push(file);
        assert(self@.updates =~= old(self)@.updates.push(file@));
    }

    /// Notes a file that is to be forgotten.
    pub fn add_forget(&mut self, file: file::Borrow)
        ensures
            final(self)@ == (Account { forgets: old(self)@.forgets.push(file@), ..old(self)@ }),
    {
        self.forgets.push(file);
        assert(self@.forgets =~= old(self)@.forgets.push(file@));
    }

    /// Notes a message for a file.
    pub fn add_report(&mut self, file: file::Borrow, message: &str)
        ensures
            final(self)@ == (Account {
                reports: old(self)@.reports.push((file@, message@)),
                ..old(self)@
            }),
    {
        self.reports.push(FileReport { file, message: message.to_owned() });
        assert(self@.reports =~= old(self)@.reports.push((file@, message@)));
    }
}

impl Summary {
    /// The summary as a text: the action, and the lines of the messages.
    pub fn format(&self) -> (s: String)
        ensures
            s@ == self.action@ + seq!['\n'] + join(texts(self.reports@), seq!['\n']),
    {
        let mut out = to_chars(self.action.as_str());
        out.push('\n');
        let lines = char_lists(&self.reports);
        let mut feed: Vec<char> = Vec::new();
        feed.push('\n');
        assert(feed@ =~= seq!['\n']);
        let joined = join_chars(&lines, &feed);
        append(&mut out, &joined);
        collect(&out)
    }
}

/// The characters of each text of a list.
pub fn char_lists(list: &Vec<String>) -> (r: Vec<Vec<char>>)
    ensures
        pieces(r@) == texts(list@),
{
    let mut r: Vec<Vec<char>> = Vec::new();
    let mut i: usize = 0;
    while i < list.len()
        invariant
            i <= list@.len(),
            pieces(r@) == texts(list@).take(i as int),
        decreases list@.len() - i,
    {
        let chars = to_chars(list[i].as_str());
        proof {
            assert(pieces(r@.push(chars)) =~= pieces(r@).push(chars@));
            assert(texts(list@).take(i as int + 1) =~= texts(list@).take(i as int).push(
                list@[i as int]@,
            ));
        }
        r.push(chars);
        i += 1;
    }
    assert(texts(list@).take(i as int) =~= texts(list@));
    r
}

/// An action as a text: the verb, and its arguments in parentheses.
pub open spec fn action_text(deed: Deed) -> Seq<char> {
    match deed {
        Deed::Add(s) => "add"@ + seq!['('] + join(s, ", "@) + seq![')'],
        Deed::Del(s) => "del"@ + seq!['('] + join(s, ", "@) + seq![')'],
        Deed::Link(s) => "link"@ + seq!['('] + join(s, ", "@) + seq![')'],
        Deed::Unlink(s) => "unlink"@ + seq!['('] + join(s, ", "@) + seq![')'],
        Deed::Merge(s, d) => "merge"@ + seq!['('] + s + ", "@ + d + seq![')'],
        Deed::Emit => "emit"@,
        Deed::Forget => "forget"@,
        Deed::Report(m) => "report"@ + seq!['('] + m + seq![')'],
    }
}

/// A verb with its arguments in parentheses.
fn call_text(verb: &str, args: &Vec<String>) -> (s: String)
    ensures
        s@ == verb@ + seq!['('] + join(texts(args@), ", "@) + seq![')'],
{
    let mut out = to_chars(verb);
    out.push('(');
    let lists = char_lists(args);
    let sep = to_chars(", ");
    let joined = join_chars(&lists, &sep);
    append(&mut out, &joined);
    out.push(')');
    collect(&out)
}

/// What the tokens of an action mean: a verb, then its arguments. `add`,
/// `del`, `link` and `unlink` take one or more, `merge` takes two, `report`
/// takes one, `emit` and `forget` take none.
pub open spec fn parsed(tokens: Seq<Seq<char>>) -> Result<Deed, Fault> {
    if tokens.len() == 0 {
        Err(Fault::ConfigurationError { message: "unexpected end of input"@ })
    } else {
        let verb = tokens[0];
        let rest = tokens.skip(1);
        if verb == "unlink"@ || verb == "link"@ || verb == "add"@ || verb == "del"@ {
            if rest.len() == 0 {
                Err(Fault::ConfigurationError { message: "expected one or more arguments"@ })
            } else if verb == "unlink"@ {
                Ok(Deed::Unlink(rest))
            } else if verb == "link"@ {
                Ok(Deed::Link(rest))
            } else if verb == "add"@ {
                Ok(Deed::Add(rest))
            } else {
                Ok(Deed::Del(rest))
            }
        } else if verb == "merge"@ {
            if rest.len() < 2 {
                Err(Fault::ConfigurationError { message: "unexpected end of input"@ })
            } else if rest.len() > 2 {
                Err(Fault::ConfigurationError { message: "trailing tokens in action"@ })
            } else {
                Ok(Deed::Merge(rest[0], rest[1]))
            }
        } else if verb == "emit"@ || verb == "forget"@ {
            if rest.len() > 0 {
                Err(Fault::ConfigurationError { message: "trailing tokens in action"@ })
            } else if verb == "emit"@ {
                Ok(Deed::Emit)
            } else {
                Ok(Deed::Forget)
            }
        } else if verb == "report"@ {
            if rest.len() < 1 {
                Err(Fault::ConfigurationError { message: "unexpected end of input"@ })
            } else if rest.len() > 1 {
                Err(Fault::ConfigurationError { message: "trailing tokens in action"@ })
            } else {
                Ok(Deed::Report(rest[0]))
            }
        } else {
            Err(Fault::UnknownAction { action: verb })
        }
    }
}

/// The verbs are eight different texts.
pub proof fn lemma_verbs()
    ensures
        "unlink"@ == seq!['u', 'n', 'l', 'i', 'n', 'k'],
        "link"@ == seq!['l', 'i', 'n', 'k'],
        "add"@ == seq!['a', 'd', 'd'],
        "del"@ == seq!['d', 'e', 'l'],
        "merge"@ == seq!['m', 'e', 'r', 'g', 'e'],
        "emit"@ == seq!['e', 'm', 'i', 't'],
        "forget"@ == seq!['f', 'o', 'r', 'g', 'e', 't'],
        "report"@ == seq!['r', 'e', 'p', 'o', 'r', 't'],
{
    reveal_strlit("unlink");
    reveal_strlit("link");
    reveal_strlit("add");
    reveal_strlit("del");
    reveal_strlit("merge");
    reveal_strlit("emit");
    reveal_strlit("forget");
    reveal_strlit("report");
    assert("unlink"@ =~= seq!['u', 'n', 'l', 'i', 'n', 'k']);
    assert("link"@ =~= seq!['l', 'i', 'n', 'k']);
    assert("add"@ =~= seq!['a', 'd', 'd']);
    assert("del"@ =~= seq!['d', 'e', 'l']);
    assert("merge"@ =~= seq!['m', 'e', 'r', 'g', 'e']);
    assert("emit"@ =~= seq!['e', 'm', 'i', 't']);
    assert("forget"@ =~= seq!['f', 'o', 'r', 'g', 'e', 't']);
    assert("report"@ =~= seq!['r', 'e', 'p', 'o', 'r', 't']);
}

/// The action that a command line names.
pub open spec fn named(cmd: &CommandAction) -> Deed {
    match cmd {
        CommandAction::Unlink(d) => Deed::Unlink(texts(d@)),
        CommandAction::Link(d) => Deed::Link(texts(d@)),
        CommandAction::Add(t) => Deed::Add(texts(t@)),
        CommandAction::Del(t) => Deed::Del(texts(t@)),
        CommandAction::Merge(s, d) => Deed::Merge(s@, d@),
        CommandAction::Forget => Deed::Forget,
        CommandAction::Emit => Deed::Emit,
        CommandAction::Report(m) => Deed::Report(m@),
    }
}

/// An error of the configuration with a message.
fn configuration_error(message: &str) -> (e: Error)
    ensures
        e@ == (Fault::ConfigurationError { message: message@ }),
{
    Error::ConfigurationError { message: message.to_owned() }
}

/// The texts of a list from a position on, as texts of their own.
fn tail(tokens: &Vec<String>, from: usize) -> (r: Vec<String>)
    requires
        from <= tokens@.len(),
    ensures
        texts(r@) == texts(tokens@).skip(from as int),
{
    let mut r: Vec<String> = Vec::new();
    let mut i: usize = from;
    let ghost all = texts(tokens@).skip(from as int);
    while i < tokens.len()
        invariant
            from <= i <= tokens@.len(),
            all == texts(tokens@).skip(from as int),
            texts(r@) == all.take(i - from),
        decreases tokens@.len() - i,
    {
        let ghost before = r@;
        r.push(tokens[i].clone());
        proof {
            assert(texts(r@) =~= texts(before).push(tokens@[i as int]@));
            assert(all.take(i - from + 1) =~= all.take(i - from).push(all[i - from]));
        }
        i += 1;
    }
    assert(all.take(i - from) =~= all);
    r
}

impl Action {
    /// How far a query must be driven for the action: the actions of the
    /// library itself need maps.
    pub fn forcings(&self) -> (f: Forcings)
        ensures
            f.wf(),
            f@ == (Forced { mapped: self is Api, filtered: false, piped: false }),
    {
        match self {
            Action::Tag(_) => Forcings::new(),
            Action::Api(_) => Forcings::new().mapped(),
        }
    }

    /// The action as a text: the verb, and its arguments in parentheses.
    pub fn to_string(&self) -> (s: String)
        ensures
            s@ == action_text(self@),
    {
        match self {
            Action::Tag(TagAction::Add(s)) => call_text(ADD, s),
            Action::Tag(TagAction::Del(s)) => call_text(DEL, s),
            Action::Tag(TagAction::Link(s)) => call_text(LINK, s),
            Action::Tag(TagAction::Unlink(s)) => call_text(UNLINK, s),
            Action::Tag(TagAction::Merge(s, d)) => {
                let mut out = to_chars(MERGE);
                out.push('(');
                append_str(&mut out, s.as_str());
                append_str(&mut out, ", ");
                append_str(&mut out, d.as_str());
                out.push(')');
                assert(out@ =~= action_text(self@));
                collect(&out)
            },
            Action::Api(ApiAction::Emit) => EMIT.to_owned(),
            Action::Api(ApiAction::Forget) => FORGET.to_owned(),
            Action::Api(ApiAction::Report(m)) => {
                let mut out = to_chars(REPORT);
                out.push('(');
                append_str(&mut out, m.as_str());
                out.push(')');
                assert(out@ =~= action_text(self@));
                collect(&out)
            },
        }
    }

    /// The action that a command line names.
    pub fn from_command_action(cmd: &CommandAction) -> (a: Self)
        ensures
            a@ == named(cmd),
    {
        match cmd {
            CommandAction::Unlink(directories) => Action::Tag(
                TagAction::Unlink(clone_texts(directories)),
            ),
            CommandAction::Link(directories) => Action::Tag(
                TagAction::Link(clone_texts(directories)),
            ),
            CommandAction::Add(tags) => Action::Tag(TagAction::Add(clone_texts(tags))),
            CommandAction::Del(tags) => Action::Tag(TagAction::Del(clone_texts(tags))),
            CommandAction::Merge(src, dst) => Action::Tag(
                TagAction::Merge(src.clone(), dst.clone()),
            ),
            CommandAction::Forget => Action::Api(ApiAction::Forget),
            CommandAction::Emit => Action::Api(ApiAction::Emit),
            CommandAction::Report(s) => Action::Api(ApiAction::Report(s.clone())),
        }
    }

    /// Parses an action from its tokens: the verb, then its arguments.
    pub fn parse(tokens: Vec<String>) -> (r: Result<Self, Error>)
        ensures
            match parsed(texts(tokens@)) {
                Ok(deed) => r matches Ok(a) && a@ == deed,
                Err(f) => r matches Err(e) && e@ == f,
            },
    {
        proof {
            lemma_verbs();
        }
        let n = tokens.len();
        if n == 0 {
            return Err(configuration_error("unexpected end of input"));
        }
        let verb = tokens[0].as_str();
        assert(texts(tokens@)[0] == verb@);
        let ghost rest = texts(tokens@).skip(1);
        if same_text(verb, UNLINK) || same_text(verb, LINK) || same_text(verb, ADD) || same_text(
            verb,
            DEL,
        ) {
            if n == 1 {
                return Err(configuration_error("expected one or more arguments"));
            }
            let args = tail(&tokens, 1);
            if same_text(verb, UNLINK) {
                Ok(Action::Tag(TagAction::Unlink(args)))
            } else if same_text(verb, LINK) {
                Ok(Action::Tag(TagAction::Link(args)))
            } else if same_text(verb, ADD) {
                Ok(Action::Tag(TagAction::Add(args)))
            } else {
                Ok(Action::Tag(TagAction::Del(args)))
            }
        } else if same_text(verb, MERGE) {
            if n < 3 {
                Err(configuration_error("unexpected end of input"))
            } else if n > 3 {
                Err(configuration_error("trailing tokens in action"))
            } else {
                assert(rest[0] == tokens@[1]@ && rest[1] == tokens@[2]@);
                Ok(Action::Tag(TagAction::Merge(tokens[1].clone(), tokens[2].clone())))
            }
        } else if same_text(verb, EMIT) || same_text(verb, FORGET) {
            if n > 1 {
                Err(configuration_error("trailing tokens in action"))
            } else if same_text(verb, EMIT) {
                Ok(Action::Api(ApiAction::Emit))
            } else {
                Ok(Action::Api(ApiAction::Forget))
            }
        } else if same_text(verb, REPORT) {
            if n < 2 {
                Err(configuration_error("unexpected end of input"))
            } else if n > 2 {
                Err(configuration_error("trailing tokens in action"))
            } else {
                assert(rest[0] == tokens@[1]@);
                Ok(Action::Api(ApiAction::Report(tokens[1].clone())))
            }
        } else {
            Err(Error::UnknownAction { action: verb.to_owned() })
        }
    }
}

/// An [`Effect`] as plain values: a link to make, a link to remove, or the
/// tags to write for a path.
pub enum Change {
    Link { source: Seq<char>, link: Seq<char> },
    Unlink { link: Seq<char> },
    Store { path: Seq<char>, tags: Set<Seq<char>> },
}

/// Whether an effect is a change.
pub open spec fn effects(effect: Effect, change: Change) -> bool {
    match change {
        Change::Link { source, link } => effect matches Effect::Link { source: s, link: l } && s@
            == source && l@ == link,
        Change::Unlink { link } => effect matches Effect::Unlink { link: l } && l@ == link,
        Change::Store { path, tags } => effect matches Effect::Store { path: p, store } && p@
            == path && stores(store, tags),
    }
}

/// Whether a list of effects is a list of changes.
pub open spec fn all_effects(list: Seq<Effect>, changes: Seq<Change>) -> bool {
    &&& list.len() == changes.len()
    &&& forall|i: int| 0 <= i < list.len() ==> effects(#[trigger] list[i], changes[i])
}

/// The state after each tag of a list is added, up to the first that is no
/// tag, and the error of that one.
pub open spec fn adds(state: State, tags: Seq<Seq<char>>) -> (State, Option<
    crate::app::attr::error::Fault,
>)
    decreases tags.len(),
{
    if tags.len() == 0 {
        (state, None)
    } else {
        match state.added(tags[0]) {
            Ok(next) => adds(next, tags.drop_first()),
            Err(f) => (state, Some(f)),
        }
    }
}

/// The state after each tag of a list is taken away.
pub open spec fn dels(state: State, tags: Seq<Seq<char>>) -> State
    decreases tags.len(),
{
    if tags.len() == 0 {
        state
    } else {
        dels(state.deleted(tags[0]), tags.drop_first())
    }
}

/// The links of a file into each directory of a list.
pub open spec fn links(path: Seq<char>, dirs: Seq<Seq<char>>) -> Seq<Change> {
    dirs.map_values(
        |d: Seq<char>| Change::Link { source: path, link: inside(d, link_name_of(path)) },
    )
}

/// The removals of the links of a file from each directory of a list.
pub open spec fn unlinks(path: Seq<char>, dirs: Seq<Seq<char>>) -> Seq<Change> {
    dirs.map_values(|d: Seq<char>| Change::Unlink { link: inside(d, link_name_of(path)) })
}

/// What an action on the tags or the links of one file comes to.
pub struct Step {
    /// The tags of the file in memory, after the action.
    pub state: State,
    /// Whether the file counts as updated.
    pub update: bool,
    /// The error that ended the action, if one did.
    pub error: Option<crate::app::attr::error::Fault>,
    /// What is to be done outside.
    pub changes: Seq<Change>,
}

/// The write of the tags of a file, where the action is committed.
pub open spec fn commits(state: State, update: bool, commit: bool) -> Step {
    if update && commit && state.dirty {
        Step {
            state: state.saved(),
            update,
            error: None,
            changes: seq![Change::Store { path: state.path, tags: state.tags }],
        }
    } else {
        Step { state, update, error: None, changes: Seq::<Change>::empty() }
    }
}

/// What a tag action on one file comes to.
pub open spec fn tag_step(deed: Deed, state: State, commit: bool) -> Step {
    match deed {
        Deed::Unlink(dirs) => Step {
            state,
            update: false,
            error: None,
            changes: if commit {
                unlinks(state.path, dirs)
            } else {
                Seq::<Change>::empty()
            },
        },
        Deed::Link(dirs) => Step {
            state,
            update: false,
            error: None,
            changes: if commit {
                links(state.path, dirs)
            } else {
                Seq::<Change>::empty()
            },
        },
        Deed::Add(tags) => {
            let (after, error) = adds(state, tags);
            if error is Some {
                Step { state: after, update: false, error, changes: Seq::<Change>::empty() }
            } else {
                commits(after, after.dirty, commit)
            }
        },
        Deed::Del(tags) => {
            let after = dels(state, tags);
            commits(after, after.dirty, commit)
        },
        Deed::Merge(src, dst) => {
            let after = state.merged(src, dst);
            if state.tags.contains(src) && state.deleted(src).added(dst) is Err {
                Step {
                    state: after,
                    update: false,
                    error: Some(state.deleted(src).added(dst)->Err_0),
                    changes: Seq::<Change>::empty(),
                }
            } else {
                commits(after, after.dirty, commit)
            }
        },
        _ => Step { state, update: false, error: None, changes: Seq::<Change>::empty() },
    }
}

/// The effect of a committed write of the tags of a file, if the tags in
/// memory differ from those on disk.
fn commit_tags(attributes: &mut File, update: bool, commit: bool) -> (list: Vec<Effect>)
    requires
        old(attributes).wf(),
    ensures
        final(attributes).wf(),
        final(attributes)@ == commits(old(attributes)@, update, commit).state,
        all_effects(list@, commits(old(attributes)@, update, commit).changes),
{
    let mut list: Vec<Effect> = Vec::new();
    if update && commit && attributes.is_dirty() {
        let path = attributes.path_str().to_owned();
        let store = attributes.save();
        list.push(Effect::Store { path, store });
    }
    list
}

impl TagAction {
    /// Runs the action on one file: the file is noted in the report, its
    /// tags in memory are changed, and what is to be done outside is handed
    /// back. Links are made and tags are written only where the action is
    /// committed.
    pub fn run(
        &self,
        report: &mut Report,
        file: file::Borrow,
        attributes: &mut File,
        commit: bool,
    ) -> (r: Result<Vec<Effect>, any::Error>)
        requires
            old(attributes).wf(),
        ensures
            final(attributes).wf(),
            ({
                let step = tag_step(self@, old(attributes)@, commit);
                &&& final(attributes)@ == step.state
                &&& final(report)@ == (Account {
                    files: old(report)@.files.push(file@),
                    updates: if step.update {
                        old(report)@.updates.push(file@)
                    } else {
                        old(report)@.updates
                    },
                    ..old(report)@
                })
                &&& match step.error {
                    Some(f) => r matches Err(e) && e@ == any::Fault::Attr(f),
                    None => r matches Ok(list) && all_effects(list@, step.changes),
                }
            }),
    {
        report.add_file(file.replica());
        let ghost start = attributes@;
        let mut list: Vec<Effect> = Vec::new();
        let update = match self {
            TagAction::Unlink(directories) => {
                if commit {
                    let mut i: usize = 0;
                    let ghost all = unlinks(start.path, texts(directories@));
                    while i < directories.len()
                        invariant
                            i <= directories@.len(),
                            attributes@ == start,
                            attributes.wf(),
                            all == unlinks(start.path, texts(directories@)),
                            all_effects(list@, all.take(i as int)),
                        decreases directories@.len() - i,
                    {
                        let link = attributes.link_path(directories[i].as_str());
                        list.push(Effect::Unlink { link });
                        i += 1;
                    }
                    assert(all.take(i as int) =~= all);
                }
                false
            },
            TagAction::Link(directories) => {
                if commit {
                    let mut i: usize = 0;
                    let ghost all = links(start.path, texts(directories@));
                    while i < directories.len()
                        invariant
                            i <= directories@.len(),
                            attributes@ == start,
                            attributes.wf(),
                            all == links(start.path, texts(directories@)),
                            all_effects(list@, all.take(i as int)),
                        decreases directories@.len() - i,
                    {
                        let link = attributes.link_path(directories[i].as_str());
                        let source = attributes.path_str().to_owned();
                        list.push(Effect::Link { source, link });
                        i += 1;
                    }
                    assert(all.take(i as int) =~= all);
                }
                false
            },
            TagAction::Add(tags) => {
                let mut i: usize = 0;
                let ghost all = texts(tags@);
                assert(all.skip(0) =~= all);
                while i < tags.len()
                    invariant
                        i <= tags@.len(),
                        attributes.wf(),
                        all == texts(tags@),
                        start == old(attributes)@,
                        *self == TagAction::Add(*tags),
                        report@ == (Account {
                            files: old(report)@.files.push(file@),
                            ..old(report)@
                        }),
                        adds(start, all) == adds(attributes@, all.skip(i as int)),
                    decreases tags@.len() - i,
                {
                    proof {
                        assert(all.skip(i as int)[0] == tags@[i as int]@);
                        assert(all.skip(i as int).drop_first() =~= all.skip(i + 1));
                    }
                    match attributes.add(tags[i].as_str()) {
                        Ok(_) => {},
                        Err(e) => {
                            return Err(any::Error::Attr(e));
                        },
                    }
                    i += 1;
                }
                attributes.is_dirty()
            },
            TagAction::Del(tags) => {
                let mut i: usize = 0;
                let ghost all = texts(tags@);
                assert(all.skip(0) =~= all);
                while i < tags.len()
                    invariant
                        i <= tags@.len(),
                        attributes.wf(),
                        all == texts(tags@),
                        dels(start, all) == dels(attributes@, all.skip(i as int)),
                    decreases tags@.len() - i,
                {
                    proof {
                        assert(all.skip(i as int)[0] == tags@[i as int]@);
                        assert(all.skip(i as int).drop_first() =~= all.skip(i + 1));
                    }
                    attributes.del(tags[i].as_str());
                    i += 1;
                }
                attributes.is_dirty()
            },
            TagAction::Merge(src, dst) => {
                match attributes.merge(src.as_str(), dst.as_str()) {
                    Ok(dirty) => dirty,
                    Err(e) => {
                        return Err(any::Error::Attr(e));
                    },
                }
            },
        };
        if update {
            let mut more = commit_tags(attributes, update, commit);
            let ghost before = list@;
            assert(before.len() == 0);
            list = more;
            report.add_update(file);
        } else {
            proof {
                assert(commits(attributes@, false, commit).changes =~= Seq::<Change>::empty());
            }
        }
        Ok(list)
    }
}

/// The state after the tags of the index were written to a file.
pub open spec fn emitted(state: State, tags: Set<Seq<char>>) -> State {
    State { tags, dirty: state.tags != Set::<Seq<char>>::empty(), ..state }
}

impl ApiAction {
    /// Runs the action on one file of a mapped result: the file is noted in
    /// the report; `emit` makes the tags of the file those that the index
    /// has, `forget` notes the file as one to forget, `report` notes the
    /// message. Tags are written only where the action is committed.
    pub fn run(&self, report: &mut Report, file: &FileView, attributes: &mut File, commit: bool) -> (r:
        Result<Vec<Effect>, any::Error>)
        requires
            old(attributes).wf(),
            file.wf(),
        ensures
            final(attributes).wf(),
            match self@ {
                Deed::Emit => match tag_names(
                    file.maps(),
                    file.tid_order(),
                    Set::<Seq<char>>::empty(),
                ) {
                    Ok(names) => {
                        let step = commits(emitted(old(attributes)@, names), true, commit);
                        &&& r matches Ok(list) && all_effects(list@, step.changes)
                        &&& final(attributes)@ == step.state
                        &&& final(report)@ == (Account {
                            files: old(report)@.files.push(file@),
                            updates: old(report)@.updates.push(file@),
                            ..old(report)@
                        })
                    },
                    Err(f) => {
                        &&& r matches Err(e) && e@ == f
                        &&& final(attributes)@ == old(attributes)@
                        &&& final(report)@ == (Account {
                            files: old(report)@.files.push(file@),
                            ..old(report)@
                        })
                    },
                },
                Deed::Forget => {
                    &&& r matches Ok(list) && list@.len() == 0
                    &&& final(attributes)@ == old(attributes)@
                    &&& final(report)@ == (Account {
                        files: old(report)@.files.push(file@),
                        forgets: old(report)@.forgets.push(file@),
                        ..old(report)@
                    })
                },
                Deed::Report(message) => {
                    &&& r matches Ok(list) && list@.len() == 0
                    &&& final(attributes)@ == old(attributes)@
                    &&& final(report)@ == (Account {
                        files: old(report)@.files.push(file@),
                        reports: old(report)@.reports.push((file@, message)),
                        ..old(report)@
                    })
                },
                _ => true,
            },
    {
        report.add_file(file.as_borrow());
        match self {
            ApiAction::Emit => {
                let tags = match file.tag_set() {
                    Ok(tags) => tags,
                    Err(e) => {
                        return Err(e);
                    },
                };
                attributes.set_tags(&tags);
                report.add_update(file.as_borrow());
                Ok(commit_tags(attributes, true, commit))
            },
            ApiAction::Forget => {
                report.add_forget(file.as_borrow());
                Ok(Vec::new())
            },
            ApiAction::Report(message) => {
                report.add_report(file.as_borrow(), message.as_str());
                Ok(Vec::new())
            },
        }
    }
}

/// What running an action on the files of a result comes to.
pub struct Run {
    /// The tags in memory of the files that the action reached.
    pub states: Seq<State>,
    /// The files that the action went over.
    pub files: Seq<FileRow>,
    /// The files that count as updated.
    pub updates: Seq<FileRow>,
    /// The files that are to be forgotten.
    pub forgets: Seq<FileRow>,
    /// The messages.
    pub reports: Seq<(FileRow, Seq<char>)>,
    /// What is to be done outside.
    pub changes: Seq<Change>,
    /// The error that ended the run, if one did.
    pub error: Option<any::Fault>,
}

/// A run that has not reached any file.
pub open spec fn no_run() -> Run {
    Run {
        states: Seq::<State>::empty(),
        files: Seq::<FileRow>::empty(),
        updates: Seq::<FileRow>::empty(),
        forgets: Seq::<FileRow>::empty(),
        reports: Seq::<(FileRow, Seq<char>)>::empty(),
        changes: Seq::<Change>::empty(),
        error: None,
    }
}

/// A run of a tag action on the files `rows`, whose tags in memory are
/// `states`, after the run `acc`. The run ends with the first error.
pub open spec fn tag_run(
    deed: Deed,
    rows: Seq<FileRow>,
    states: Seq<State>,
    commit: bool,
    acc: Run,
) -> Run
    decreases rows.len(),
{
    if rows.len() == 0 || states.len() == 0 {
        acc
    } else {
        let step = tag_step(deed, states[0], commit);
        let next = Run {
            states: acc.states.push(step.state),
            files: acc.files.push(rows[0]),
            updates: if step.update {
                acc.updates.push(rows[0])
            } else {
                acc.updates
            },
            changes: acc.changes + step.changes,
            error: match step.error {
                Some(f) => Some(any::Fault::Attr(f)),
                None => None,
            },
            ..acc
        };
        if step.error is Some {
            next
        } else {
            tag_run(deed, rows.drop_first(), states.drop_first(), commit, next)
        }
    }
}

/// What an action of the library itself on one file comes to, given the
/// names of the tags that the index has for the file.
pub open spec fn api_step(
    deed: Deed,
    row: FileRow,
    names: Result<Set<Seq<char>>, any::Fault>,
    state: State,
    commit: bool,
    acc: Run,
) -> Run {
    match deed {
        Deed::Emit => match names {
            Ok(tags) => {
                let step = commits(emitted(state, tags), true, commit);
                Run {
                    states: acc.states.push(step.state),
                    files: acc.files.push(row),
                    updates: acc.updates.push(row),
                    changes: acc.changes + step.changes,
                    ..acc
                }
            },
            Err(f) => Run {
                states: acc.states.push(state),
                files: acc.files.push(row),
                error: Some(f),
                ..acc
            },
        },
        Deed::Forget => Run {
            states: acc.states.push(state),
            files: acc.files.push(row),
            forgets: acc.forgets.push(row),
            ..acc
        },
        Deed::Report(message) => Run {
            states: acc.states.push(state),
            files: acc.files.push(row),
            reports: acc.reports.push((row, message)),
            ..acc
        },
        _ => acc,
    }
}

/// A run of an action of the library itself on the files with the ids `ids`
/// of the maps, whose tags in memory are `states`, after the run `acc`. The
/// run ends with the first error.
pub open spec fn api_run(
    deed: Deed,
    maps: &Maps,
    ids: Seq<i64>,
    states: Seq<State>,
    commit: bool,
    acc: Run,
) -> Run
    decreases ids.len(),
{
    if ids.len() == 0 || states.len() == 0 {
        acc
    } else {
        let subject = maps.subject(ids[0]);
        let next = api_step(
            deed,
            maps.file_map()[ids[0] as int],
            tag_names(maps, subject.tids, Set::<Seq<char>>::empty()),
            states[0],
            commit,
            acc,
        );
        if next.error is Some {
            next
        } else {
            api_run(deed, maps, ids.drop_first(), states.drop_first(), commit, next)
        }
    }
}

/// The tags in memory of a list of files.
pub open spec fn states(files: Seq<File>) -> Seq<State> {
    files.map_values(|f: File| f@)
}

/// Whether every file of a list is well formed.
pub open spec fn all_wf(files: Seq<File>) -> bool {
    forall|i: int| 0 <= i < files.len() ==> (#[trigger] files[i]).wf()
}

/// Whether a report and the files and effects that came with it are what a
/// run came to.
pub open spec fn reports(report: Report, files: Seq<File>, list: Seq<Effect>, run: Run) -> bool {
    &&& states(files) == run.states
    &&& report@.files == run.files
    &&& report@.updates == run.updates
    &&& report@.forgets == run.forgets
    &&& report@.reports == run.reports
    &&& all_effects(list, run.changes)
}

/// Adds the effects of one step to a list.
fn extend_effects(list: &mut Vec<Effect>, more: Vec<Effect>, Ghost(before): Ghost<Seq<Change>>, Ghost(
    added,
): Ghost<Seq<Change>>)
    requires
        all_effects(old(list)@, before),
        all_effects(more@, added),
    ensures
        all_effects(final(list)@, before + added),
{
    let mut more = reversed(more);
    let ghost all = more@.reverse();
    let ghost start = list@;
    let ghost n = more@.len() as int;
    assert(all =~= old(list)@.take(0) + all) by {
        assert(old(list)@.take(0) =~= Seq::<Effect>::empty());
    }
    while more.len() > 0
        invariant
            more@.len() <= n,
            n == all.len(),
            n == added.len(),
            all_effects(all, added),
            more@ == all.reverse().take(more@.len() as int),
            list@ == start + all.take(n - more@.len()),
            all_effects(start, before),
        decreases more@.len(),
    {
        let ghost m = more@.len() as int;
        let item = more.pop().unwrap();
        proof {
            assert(more@ =~= all.reverse().take(m - 1));
            assert(item == all.reverse()[m - 1]);
            assert(all.reverse()[m - 1] == all[n - m]);
            assert(all.take(n - m + 1) =~= all.take(n - m).push(all[n - m]));
        }
        list.push(item);
        proof {
            assert(list@ =~= start + all.take(n - m + 1));
        }
    }
    proof {
        assert(all.take(n) =~= all);
        assert forall|i: int| 0 <= i < list@.len() implies effects(
            #[trigger] list@[i],
            (before + added)[i],
        ) by {
            if i < start.len() {
                assert(list@[i] == start[i]);
            } else {
                assert(list@[i] == all[i - start.len()]);
            }
        }
    }
}

impl Action {
    /// Runs a tag action on files whose tags were read.
    fn run_tags<'a>(
        &'a self,
        action: &TagAction,
        files: Vec<file::Borrow>,
        attributes: Vec<File>,
        commit: bool,
    ) -> (r: (Report<'a>, Vec<File>, Vec<Effect>, Option<any::Error>))
        requires
            *self == Action::Tag(*action),
            all_wf(attributes@),
        ensures
            ({
                let run = tag_run(self@, rows(files@), states(attributes@), commit, no_run());
                &&& r.0@.action == self@
                &&& reports(r.0, r.1@, r.2@, run)
                &&& all_wf(r.1@)
                &&& match run.error {
                    Some(f) => r.3 matches Some(e) && e@ == f,
                    None => r.3 is None,
                }
            }),
    {
        let mut report = Report::new(self);
        let mut done: Vec<File> = Vec::new();
        let mut list: Vec<Effect> = Vec::new();
        let ghost all_rows = rows(files@);
        let ghost all_states = states(attributes@);
        let ghost mut acc = no_run();
        let mut i: usize = 0;
        proof {
            assert(all_rows.skip(0) =~= all_rows);
            assert(all_states.skip(0) =~= all_states);
            assert(states(done@) =~= Seq::<State>::empty());
        }
        while i < files.len() && i < attributes.len()
            invariant
                *self == Action::Tag(*action),
                i <= files@.len(),
                i <= attributes@.len(),
                all_rows == rows(files@),
                all_states == states(attributes@),
                all_wf(attributes@),
                all_wf(done@),
                report@.action == self@,
                reports(report, done@, list@, acc),
                acc.error is None,
                tag_run(self@, all_rows, all_states, commit, no_run()) == tag_run(
                    self@,
                    all_rows.skip(i as int),
                    all_states.skip(i as int),
                    commit,
                    acc,
                ),
            decreases files@.len() - i,
        {
            let file = files[i].replica();
            assert(attributes@[i as int].wf());
            let mut attribute = attributes[i].replica();
            proof {
                assert(all_rows.skip(i as int)[0] == file@);
                assert(all_states.skip(i as int)[0] == attribute@);
                assert(all_rows.skip(i as int).drop_first() =~= all_rows.skip(i + 1));
                assert(all_states.skip(i as int).drop_first() =~= all_states.skip(i + 1));
            }
            let ghost step = tag_step(self@, attribute@, commit);
            let ghost before = acc;
            let ghost row = file@;
            let outcome = action.run(&mut report, file, &mut attribute, commit);
            proof {
                acc =
                Run {
                    states: before.states.push(step.state),
                    files: before.files.push(row),
                    updates: if step.update {
                        before.updates.push(row)
                    } else {
                        before.updates
                    },
                    changes: before.changes + step.changes,
                    error: match step.error {
                        Some(f) => Some(any::Fault::Attr(f)),
                        None => None,
                    },
                    ..before
                };
                assert(states(done@.push(attribute)) =~= states(done@).push(attribute@));
            }
            done.push(attribute);
            i += 1;
            match outcome {
                Ok(more) => {
                    extend_effects(&mut list, more, Ghost(before.changes), Ghost(step.changes));
                },
                Err(e) => {
                    proof {
                        assert(before.changes + step.changes =~= before.changes);
                    }
                    return (report, done, list, Some(e));
                },
            }
        }
        (report, done, list, None)
    }

    /// Runs an action of the library itself on files whose tags were read.
    fn run_api<'a>(
        &'a self,
        action: &ApiAction,
        files: &Vec<FileView>,
        maps: &Maps,
        Ghost(ids): Ghost<Seq<i64>>,
        attributes: Vec<File>,
        commit: bool,
    ) -> (r: (Report<'a>, Vec<File>, Vec<Effect>, Option<any::Error>))
        requires
            *self == Action::Api(*action),
            all_wf(attributes@),
            files@.len() == ids.len(),
            forall|i: int|
                0 <= i < files@.len() ==> (#[trigger] files@[i]).wf() && files@[i]@
                    == maps.file_map()[ids[i] as int] && files@[i].subject() == maps.subject(ids[i])
                    && *files@[i].maps() == *maps,
        ensures
            ({
                let run = api_run(self@, maps, ids, states(attributes@), commit, no_run());
                &&& r.0@.action == self@
                &&& reports(r.0, r.1@, r.2@, run)
                &&& all_wf(r.1@)
                &&& match run.error {
                    Some(f) => r.3 matches Some(e) && e@ == f,
                    None => r.3 is None,
                }
            }),
    {
        let mut report = Report::new(self);
        let mut done: Vec<File> = Vec::new();
        let mut list: Vec<Effect> = Vec::new();
        let ghost all_states = states(attributes@);
        let ghost mut acc = no_run();
        let mut i: usize = 0;
        proof {
            assert(ids.skip(0) =~= ids);
            assert(all_states.skip(0) =~= all_states);
            assert(states(done@) =~= Seq::<State>::empty());
        }
        while i < files.len() && i < attributes.len()
            invariant
                *self == Action::Api(*action),
                i <= files@.len(),
                i <= attributes@.len(),
                files@.len() == ids.len(),
                forall|k: int|
                    0 <= k < files@.len() ==> (#[trigger] files@[k]).wf() && files@[k]@
                        == maps.file_map()[ids[k] as int] && files@[k].subject() == maps.subject(
                        ids[k],
                    ) && *files@[k].maps() == *maps,
                all_states == states(attributes@),
                all_wf(attributes@),
                all_wf(done@),
                report@.action == self@,
                reports(report, done@, list@, acc),
                acc.error is None,
                api_run(self@, maps, ids, all_states, commit, no_run()) == api_run(
                    self@,
                    maps,
                    ids.skip(i as int),
                    all_states.skip(i as int),
                    commit,
                    acc,
                ),
            decreases files@.len() - i,
        {
            let file = &files[i];
            assert(attributes@[i as int].wf());
            let mut attribute = attributes[i].replica();
            proof {
                assert(files@[i as int].wf());
                assert(ids.skip(i as int)[0] == ids[i as int]);
                assert(all_states.skip(i as int)[0] == attribute@);
                assert(ids.skip(i as int).drop_first() =~= ids.skip(i + 1));
                assert(all_states.skip(i as int).drop_first() =~= all_states.skip(i + 1));
                file.lemma_tids();
            }
            let ghost before = acc;
            let ghost names = tag_names(maps, maps.subject(ids[i as int]).tids, Set::<Seq<char>>::empty());
            let ghost next = api_step(self@, file@, names, attribute@, commit, before);
            let outcome = action.run(&mut report, file, &mut attribute, commit);
            proof {
                acc = next;
                assert(states(done@.push(attribute)) =~= states(done@).push(attribute@));
            }
            done.push(attribute);
            i += 1;
            match outcome {
                Ok(more) => {
                    proof {
                        match self@ {
                            Deed::Emit => {},
                            _ => {
                                assert(before.changes + Seq::<Change>::empty() =~= before.changes);
                            },
                        }
                    }
                    let ghost added = match self@ {
                        Deed::Emit => commits(
                            emitted(all_states[i - 1], names->Ok_0),
                            true,
                            commit,
                        ).changes,
                        _ => Seq::<Change>::empty(),
                    };
                    extend_effects(&mut list, more, Ghost(before.changes), Ghost(added));
                },
                Err(e) => {
                    return (report, done, list, Some(e));
                },
            }
        }
        (report, done, list, None)
    }

    /// Runs the action on every file of a result. The tags of the files
    /// were read before, in the order of the files; what is to be done
    /// outside is handed back with the report. A tag action takes the files
    /// of the result, an action of the library itself takes its views.
    pub fn run<'a>(&'a self, results: &Results, attributes: Vec<File>, commit: bool) -> (r: Result<
        Outcome<'a>,
        any::Error,
    >)
        requires
            results.wf(),
            all_wf(attributes@),
        ensures
            match self {
                Action::Tag(_) => match results.rows() {
                    Err(f) => r matches Err(e) && e@ == f,
                    Ok(rows) => r matches Ok(o) && o.report@.action == self@ && all_wf(o.files@)
                        && reports(
                        o.report,
                        o.files@,
                        o.effects@,
                        tag_run(self@, rows, states(attributes@), commit, no_run()),
                    ) && failure(o.error) == tag_run(
                        self@,
                        rows,
                        states(attributes@),
                        commit,
                        no_run(),
                    ).error,
                },
                Action::Api(_) => match results.viewed() {
                    Err(f) => r matches Err(e) && e@ == f,
                    Ok(ids) => r matches Ok(o) && o.report@.action == self@ && all_wf(o.files@)
                        && reports(
                        o.report,
                        o.files@,
                        o.effects@,
                        api_run(
                            self@,
                            results.maps()->Some_0,
                            ids,
                            states(attributes@),
                            commit,
                            no_run(),
                        ),
                    ) && failure(o.error) == api_run(
                        self@,
                        results.maps()->Some_0,
                        ids,
                        states(attributes@),
                        commit,
                        no_run(),
                    ).error,
                },
            },
    {
        match self {
            Action::Tag(action) => {
                let files = match results.file_iter() {
                    Ok(files) => files,
                    Err(e) => {
                        return Err(e);
                    },
                };
                let (report, files, effects, error) = self.run_tags(action, files, attributes, commit);
                Ok(Outcome { report, files, effects, error })
            },
            Action::Api(action) => {
                let views = match results.file_view_iter() {
                    Ok(views) => views,
                    Err(e) => {
                        return Err(e);
                    },
                };
                let ghost ids = results.shown();
                let maps = match results.maps_ref() {
                    Some(maps) => maps,
                    None => {
                        return Err(any::Error::Collections(
                            crate::util::collections::Error::UnknownId { id: String::new() },
                        ));
                    },
                };
                let (report, files, effects, error) = self.run_api(
                    action,
                    &views,
                    maps,
                    Ghost(ids),
                    attributes,
                    commit,
                );
                Ok(Outcome { report, files, effects, error })
            },
        }
    }
}

/// The view of an error that may be missing.
pub open spec fn failure(e: Option<any::Error>) -> Option<any::Fault> {
    match e {
        Some(e) => Some(e@),
        None => None,
    }
}

/// What running an action gave: the report, the files with their tags in
/// memory after the action, what is to be done outside, and the error that
/// ended the run, if one did.
pub struct Outcome<'a> {
    pub report: Report<'a>,
    pub files: Vec<File>,
    pub effects: Vec<Effect>,
    pub error: Option<any::Error>,
}

} // verus!
