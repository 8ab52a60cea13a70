//! Tests one file against a syntax tree: regular expressions on its tags and
//! its path, comparisons of its parameters, and outcomes of shell commands.
use crate::app::data::query::maps::{subject_parameters, FileView, Maps, Subject};
use crate::dsl::error as dsl;
use crate::dsl::filter::context::{is_match, regex_compiles, regex_matches, Context};
use crate::expression::comparison::{compared, relation_of, Comparables, Parameters};
use crate::expression::error as expression;
use crate::expression::logic::{eval, outcome, Logic};
use crate::expression::namespace::{
    canonical,
    segments,
    separator,
    texts,
    word_path,
    word_tag,
    Namespec,
    RESERVED_PATH,
    RESERVED_TAG,
};
use crate::expression::parser::{Ast, Operator, Tree};
use crate::util::error::{Error, Fault};
use crate::util::string::{collect, join, replace_all, replaced, same_text, to_chars};
use crate::util::table::VecMap;
use std::borrow::Cow;
use vstd::prelude::*;

verus! {

/// Whether a character needs no quoting in a shell.
pub open spec fn is_plain(c: char) -> bool {
    ('a' <= c <= 'z') || ('A' <= c <= 'Z') || ('0' <= c <= '9') || c == '-' || c == '_' || c == '='
        || c == '/' || c == ',' || c == '.' || c == '+'
}

/// The characters of a text as they stand between single quotes: `'` and `!`
/// leave the quotes, escaped by a backslash.
pub open spec fn quoted_chars(s: Seq<char>) -> Seq<char>
    decreases s.len(),
{
    if s.len() == 0 {
        s
    } else {
        (if s[0] == '\'' || s[0] == '!' {
            seq!['\'', '\\', s[0], '\'']
        } else {
            seq![s[0]]
        }) + quoted_chars(s.drop_first())
    }
}

/// A text as one word of a shell command: itself where it is not empty and
/// every character is plain, else between single quotes.
pub open spec fn shell_quoted(s: Seq<char>) -> Seq<char> {
    if s.len() > 0 && forall|i: int| 0 <= i < s.len() ==> is_plain(#[trigger] s[i]) {
        s
    } else {
        seq!['\''] + quoted_chars(s) + seq!['\'']
    }
}

/// `shell_escape::unix::escape` makes a text one word of a shell command.
#[verifier::external_body]
fn escape(text: &str) -> (r: String)
    ensures
        r@ == shell_quoted(text@),
{
    shell_escape::unix::escape(Cow::Borrowed(text)).into_owned()
}

/// The place in a shell command where the path of the file goes.
pub open spec fn placeholder() -> Seq<char> {
    seq!['{', '}']
}

/// The shell command of a payload for a file: the payload with the quoted
/// path of the file at each placeholder.
pub open spec fn command_line(payload: Seq<char>, path: Seq<char>) -> Seq<char> {
    replaced(payload, placeholder(), shell_quoted(path))
}

/// Whether one of the tags with the ids `ids` has a name that the regular
/// expression of `pattern` matches. The ids are taken in order, up to the
/// first match; an id that has no tag in the maps is an error.
pub open spec fn any_tag_matches(maps: &Maps, ids: Seq<i64>, pattern: Seq<char>) -> Result<
    bool,
    Fault,
>
    decreases ids.len(),
{
    if ids.len() == 0 {
        Ok(false)
    } else if !maps.has_tag(ids[0]) {
        Err(Fault::Collections(Seq::<char>::empty()))
    } else if regex_matches(pattern, maps.tag_map()[ids[0] as int].name) {
        Ok(true)
    } else {
        any_tag_matches(maps, ids.drop_first(), pattern)
    }
}

/// What a `=` leaf says of a file: the payload is made canonical; what
/// follows its reserved word is a regular expression, which is matched with
/// the names of the tags of the file, or with its path.
pub open spec fn expr_test(file: Subject, payload: Seq<char>) -> Result<bool, Fault> {
    let canon = canonical(segments(payload), word_tag());
    if canon.len() < 2 {
        Err(Fault::Dsl(dsl::Fault::InvalidNamespace { name: Seq::<char>::empty() }))
    } else {
        let pattern = join(texts(canon.skip(2)), separator());
        let reserved = canon[1].text();
        if !regex_compiles(pattern) {
            Err(Fault::Dsl(dsl::Fault::InvalidPattern { pattern }))
        } else if reserved == word_tag() {
            any_tag_matches(&file.maps, file.tids, pattern)
        } else if reserved == word_path() {
            Ok(regex_matches(pattern, file.path))
        } else {
            Err(Fault::Dsl(dsl::Fault::InvalidNamespace { name: reserved }))
        }
    }
}

/// What a `?` leaf says of a file: the payload is a comparison, which is
/// made on the parameters of the file.
pub open spec fn cmps_test(file: Subject, payload: Seq<char>) -> Result<bool, Fault> {
    match relation_of(payload) {
        None => Err(Fault::Expression(expression::Fault::FailedCapture { expression: payload })),
        Some(rel) => match compared(subject_parameters(file), rel) {
            Ok(b) => Ok(b),
            Err(e) => Err(Fault::Expression(e)),
        },
    }
}

/// What a `$` leaf says of a file: the outcome of its shell command.
pub open spec fn exec_test(
    outcomes: Map<Seq<char>, bool>,
    file: Subject,
    payload: Seq<char>,
) -> Result<bool, Fault> {
    let command = command_line(payload, file.path);
    if outcomes.contains_key(command) {
        Ok(outcomes[command])
    } else {
        Err(Fault::Dsl(dsl::Fault::MissingOutcome { command }))
    }
}

/// The filter-side meaning: leaves test a file, operators are those of
/// boolean logic. The outcomes of the shell commands are given.
pub struct Meaning<'q> {
    outcomes: &'q VecMap<String, bool>,
}

impl<'q> Meaning<'q> {
    /// The outcomes of the shell commands, by command.
    pub closed spec fn outcomes(&self) -> Map<Seq<char>, bool> {
        self.outcomes@
    }

    /// The table of outcomes is well formed.
    pub closed spec fn wf(&self) -> bool {
        self.outcomes.wf()
    }

    /// Tests the names of the tags of a file, or its path, against the
    /// regular expression of a payload.
    fn match_expr(&self, context: &mut Context, attr: &FileView<'q>, exp: &str) -> (r: Result<
        bool,
        Error,
    >)
        requires
            old(context).wf(),
            attr.wf(),
        ensures
            final(context).wf(),
            outcome(r) == expr_test(attr.subject(), exp@),
    {
        proof {
            reveal_strlit("tag");
            reveal_strlit("path");
            assert("tag"@ =~= word_tag());
            assert("path"@ =~= word_path());
            attr.lemma_tids();
        }
        let (canon, _user) = match Namespec::try_canonicalize_user_expression(exp) {
            Some(pair) => pair,
            None => {
                return Err(Error::Dsl(dsl::Error::InvalidNamespace { name: String::new() }));
            },
        };
        let pattern = canon.to_string_from(2);
        match context.regex(pattern.as_str()) {
            Ok(_) => {},
            Err(e) => {
                return Err(Error::Dsl(e));
            },
        }
        let regex = match context.cached(pattern.as_str()) {
            Some(regex) => regex,
            None => {
                return Err(Error::Dsl(dsl::Error::InvalidPattern { pattern }));
            },
        };
        let reserved = canon.get_reserved().as_str();
        if same_text(reserved, RESERVED_TAG) {
            let ids = attr.tag_ids();
            let n = ids.len();
            let mut i: usize = 0;
            let ghost order = attr.tid_order();
            let ghost goal = expr_test(attr.subject(), exp@);
            assert(order.skip(0) =~= order);
            while i < n
                invariant
                    i <= n,
                    n == order.len(),
                    order == ids.order(),
                    attr.wf(),
                    ids.wf(),
                    attr.maps().wf(),
                    context.wf(),
                    goal == expr_test(attr.subject(), exp@),
                    crate::dsl::filter::context::regex_source(*regex) == pattern@,
                    crate::dsl::filter::context::regex_plain(*regex),
                    goal == any_tag_matches(attr.maps(), order.skip(i as int), pattern@),
                decreases n - i,
            {
                let tid = *ids.get(i);
                proof {
                    assert(order.skip(i as int)[0] == tid);
                    assert(order.skip(i as int).drop_first() =~= order.skip(i + 1));
                }
                let tag = match attr.tag(tid) {
                    Ok(tag) => tag,
                    Err(e) => {
                        return Err(Error::Collections(e));
                    },
                };
                if is_match(regex, tag.name()) {
                    return Ok(true);
                }
                i += 1;
            }
            Ok(false)
        } else if same_text(reserved, RESERVED_PATH) {
            Ok(is_match(regex, attr.path()))
        } else {
            Err(Error::Dsl(dsl::Error::InvalidNamespace { name: reserved.to_owned() }))
        }
    }

    /// Makes the comparison of a payload on the parameters of a file.
    fn match_cmps(&self, context: &mut Context, attr: &FileView<'q>, exp: &str) -> (r: Result<
        bool,
        Error,
    >)
        requires
            old(context).wf(),
            attr.wf(),
        ensures
            final(context).wf(),
            outcome(r) == cmps_test(attr.subject(), exp@),
    {
        let comparison = match context.comparison(exp) {
            Ok(comparison) => comparison,
            Err(e) => {
                return Err(Error::Expression(e));
            },
        };
        let comparables = Comparables::from_map(attr.parameters());
        match comparables.evaluate(comparison) {
            Ok(b) => Ok(b),
            Err(e) => Err(Error::Expression(e)),
        }
    }

    /// Looks up the outcome of the shell command of a payload for a file.
    fn match_exec(&self, attr: &FileView<'q>, exp: &str) -> (r: Result<bool, Error>)
        requires
            self.wf(),
            attr.wf(),
        ensures
            outcome(r) == exec_test(self.outcomes(), attr.subject(), exp@),
    {
        proof {
            attr.lemma_tids();
        }
        let command = shell_command(exp, attr.path());
        match self.outcomes.get(&command) {
            Some(b) => Ok(*b),
            None => Err(Error::Dsl(dsl::Error::MissingOutcome { command })),
        }
    }
}

/// The shell command of a payload for a path.
pub fn shell_command(payload: &str, path: &str) -> (command: String)
    ensures
        command@ == command_line(payload@, path@),
{
    let escaped = escape(path);
    let mut hole: Vec<char> = Vec::new();
    hole.push('{');
    hole.push('}');
    assert(hole@ =~= placeholder());
    let text = to_chars(payload);
    let rep = to_chars(escaped.as_str());
    collect(&replace_all(&text, &hole, &rep))
}

impl<'q> crate::expression::logic::Dsl for Meaning<'q> {
    type Context = Context;

    type Input = FileView<'q>;

    type Output = bool;

    type Failure = Error;

    open spec fn inv(&self, context: &Context) -> bool {
        context.wf() && self.wf()
    }

    open spec fn accepts(&self, input: &FileView<'q>) -> bool {
        input.wf()
    }

    open spec fn id_spec(&self, modifier: char, payload: Seq<char>, input: &FileView<'q>) -> Result<
        bool,
        Fault,
    > {
        if modifier == '=' {
            expr_test(input.subject(), payload)
        } else if modifier == '?' {
            cmps_test(input.subject(), payload)
        } else if modifier == '$' {
            exec_test(self.outcomes(), input.subject(), payload)
        } else {
            Err(Fault::Dsl(dsl::Fault::InvalidModifier { c: modifier }))
        }
    }

    open spec fn not_spec(&self, v: bool) -> Result<bool, Fault> {
        Ok(!v)
    }

    open spec fn and_spec(&self, a: bool, b: bool) -> Result<bool, Fault> {
        Ok(a && b)
    }

    open spec fn or_spec(&self, a: bool, b: bool) -> Result<bool, Fault> {
        Ok(a || b)
    }

    fn id(&self, context: &mut Context, modifier: char, payload: &str, input: &FileView<'q>) -> (r:
        Result<bool, Error>) {
        if modifier == '=' {
            self.match_expr(context, input, payload)
        } else if modifier == '?' {
            self.match_cmps(context, input, payload)
        } else if modifier == '$' {
            self.match_exec(input, payload)
        } else {
            Err(Error::Dsl(dsl::Error::InvalidModifier { c: modifier }))
        }
    }

    fn not(&self, context: &mut Context, v: bool) -> (r: Result<bool, Error>) {
        Ok(!v)
    }

    fn and(&self, context: &mut Context, a: bool, b: bool) -> (r: Result<bool, Error>) {
        Ok(a && b)
    }

    fn or(&self, context: &mut Context, a: bool, b: bool) -> (r: Result<bool, Error>) {
        Ok(a || b)
    }
}

/// What a tree says of a file, given the outcomes of the shell commands:
/// the tests of its leaves, combined by boolean logic. Every leaf is tested.
pub open spec fn tested(outcomes: Map<Seq<char>, bool>, tree: Tree, file: Subject) -> Result<
    bool,
    Fault,
>
    decreases tree,
{
    match tree {
        Tree::Expr(c, payload) => if c == '=' {
            expr_test(file, payload)
        } else if c == '?' {
            cmps_test(file, payload)
        } else if c == '$' {
            exec_test(outcomes, file, payload)
        } else {
            Err(Fault::Dsl(dsl::Fault::InvalidModifier { c }))
        },
        Tree::Not(a) => match tested(outcomes, *a, file) {
            Ok(v) => Ok(!v),
            Err(e) => Err(e),
        },
        Tree::And(a, b) => match tested(outcomes, *a, file) {
            Ok(x) => match tested(outcomes, *b, file) {
                Ok(y) => Ok(x && y),
                Err(e) => Err(e),
            },
            Err(e) => Err(e),
        },
        Tree::Or(a, b) => match tested(outcomes, *a, file) {
            Ok(x) => match tested(outcomes, *b, file) {
                Ok(y) => Ok(x || y),
                Err(e) => Err(e),
            },
            Err(e) => Err(e),
        },
    }
}

/// The filter-side language: tests files against syntax trees.
pub struct Dsl<'q>(Logic<Meaning<'q>>);

impl<'q> Dsl<'q> {
    /// The outcomes of the shell commands, by command.
    pub closed spec fn outcomes(&self) -> Map<Seq<char>, bool> {
        self.0.dsl().outcomes()
    }

    /// The table of outcomes is well formed.
    pub closed spec fn wf(&self) -> bool {
        self.0.dsl().wf()
    }

    /// The filter-side language, with the outcomes of the shell commands that
    /// the trees may name.
    pub fn new(outcomes: &'q VecMap<String, bool>) -> (d: Self)
        requires
            outcomes.wf(),
        ensures
            d.wf(),
            d.outcomes() == outcomes@,
    {
        Dsl(Logic::new(Meaning { outcomes }))
    }

    /// Tests a file against a tree.
    pub fn evaluate(&self, ast: &Ast, context: &mut Context, input: &FileView<'q>) -> (r: Result<
        bool,
        Error,
    >)
        requires
            self.wf(),
            old(context).wf(),
            input.wf(),
        ensures
            final(context).wf(),
            outcome(r) == tested(self.outcomes(), ast@, input.subject()),
    {
        proof {
            lemma_tested(self.0.dsl(), ast@, input);
        }
        self.0.evaluate(ast, context, input)
    }

    /// The shell commands that testing a file against a tree asks the
    /// outcomes of: one for each `$` leaf, from the left.
    pub fn commands(ast: &Ast, path: &str) -> (list: Vec<String>)
        ensures
            crate::util::table::views(list@) == commands_of(ast@, path@),
    {
        let mut list: Vec<String> = Vec::new();
        collect_commands(ast, path, &mut list);
        assert(Seq::<Seq<char>>::empty() + commands_of(ast@, path@) =~= commands_of(ast@, path@));
        list
    }
}

/// The shell commands of the `$` leaves of a tree for a path, from the left.
pub open spec fn commands_of(tree: Tree, path: Seq<char>) -> Seq<Seq<char>>
    decreases tree,
{
    match tree {
        Tree::Expr(c, payload) => if c == '$' {
            seq![command_line(payload, path)]
        } else {
            Seq::<Seq<char>>::empty()
        },
        Tree::Not(a) => commands_of(*a, path),
        Tree::And(a, b) => commands_of(*a, path) + commands_of(*b, path),
        Tree::Or(a, b) => commands_of(*a, path) + commands_of(*b, path),
    }
}

/// Adds the shell commands of a tree for a path to a list.
fn collect_commands(ast: &Ast, path: &str, list: &mut Vec<String>)
    ensures
        crate::util::table::views(final(list)@) == crate::util::table::views(old(list)@)
            + commands_of(ast@, path@),
    decreases ast,
{
    let ghost before = crate::util::table::views(list@);
    match ast {
        Ast::Expr(c, payload) => {
            if *c == '$' {
                let command = shell_command(payload.as_str(), path);
                list.push(command);
                assert(crate::util::table::views(list@) =~= before + seq![
                    command_line(payload@, path@),
                ]);
            } else {
                assert(before + Seq::<Seq<char>>::empty() =~= before);
            }
        },
        Ast::Operation(Operator::Not(a)) => {
            collect_commands(a, path, list);
        },
        Ast::Operation(Operator::And(a, b)) => {
            collect_commands(a, path, list);
            collect_commands(b, path, list);
            assert((before + commands_of(a@, path@)) + commands_of(b@, path@) =~= before + (
            commands_of(a@, path@) + commands_of(b@, path@)));
        },
        Ast::Operation(Operator::Or(a, b)) => {
            collect_commands(a, path, list);
            collect_commands(b, path, list);
            assert((before + commands_of(a@, path@)) + commands_of(b@, path@) =~= before + (
            commands_of(a@, path@) + commands_of(b@, path@)));
        },
    }
}

/// Evaluating under the filter-side meaning is testing.
proof fn lemma_tested(meaning: &Meaning, tree: Tree, file: &FileView)
    ensures
        eval(meaning, tree, file) == tested(meaning.outcomes(), tree, file.subject()),
    decreases tree,
{
    match tree {
        Tree::Expr(c, payload) => {},
        Tree::Not(a) => {
            lemma_tested(meaning, *a, file);
        },
        Tree::And(a, b) => {
            lemma_tested(meaning, *a, file);
            lemma_tested(meaning, *b, file);
        },
        Tree::Or(a, b) => {
            lemma_tested(meaning, *a, file);
            lemma_tested(meaning, *b, file);
        },
    }
}

} // verus!
