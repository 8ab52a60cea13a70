//! Commands and conventions: queries with the actions that they apply.
use crate::app::data::query::forcings::{Forced, Forcings};
use crate::app::data::query::state::{Pipeline, Stages};
use crate::app::meta::action;
use crate::app::meta::action::{parsed, Action, Deed};
use crate::app::meta::config;
use crate::app::meta::config::{expansion_opt, texts, token_lists, CommandAction, CommandText};
use crate::app::meta::error as meta;
use crate::app::meta::template::{instance, Template};
use crate::expression::expansion::{expansion, Expansions, Rules};
use crate::expression::expression::{compiled_opt, raw_opt, text_opt, wrapped_opt, Expression};
use crate::util::error::{Error, Fault};
use crate::util::string::{append_str, collect};
use crate::util::table::VecMap;
use vstd::prelude::*;

verus! {

/// A configured command: a compiled pipeline and the actions to apply.
#[derive(Debug)]
pub struct Command {
    pipeline: Pipeline,
    actions: Vec<Action>,
}

/// A [`Command`] as plain values.
pub struct Plan {
    pub pipeline: Stages,
    pub actions: Seq<Deed>,
}

/// The views of a list of actions.
pub open spec fn deeds(actions: Seq<Action>) -> Seq<Deed> {
    actions.map_values(|a: Action| a@)
}

impl View for Command {
    type V = Plan;

    closed spec fn view(&self) -> Plan {
        Plan { pipeline: self.pipeline@, actions: deeds(self.actions@) }
    }
}

/// The texts of a list, each expanded; the first error ends the list.
pub open spec fn expanded(rules: Rules, tokens: Seq<Seq<char>>, acc: Seq<Seq<char>>) -> Result<
    Seq<Seq<char>>,
    Fault,
>
    decreases tokens.len(),
{
    if tokens.len() == 0 {
        Ok(acc)
    } else {
        match expansion(rules, tokens[0], rules.limit) {
            Ok(t) => expanded(rules, tokens.drop_first(), acc.push(t)),
            Err(e) => Err(Fault::Expression(e)),
        }
    }
}

/// The actions of a list of token lists: each list is expanded and parsed;
/// the first error ends the list.
pub open spec fn actions_of(rules: Rules, lists: Seq<Seq<Seq<char>>>, acc: Seq<Deed>) -> Result<
    Seq<Deed>,
    Fault,
>
    decreases lists.len(),
{
    if lists.len() == 0 {
        Ok(acc)
    } else {
        match expanded(rules, lists[0], Seq::<Seq<char>>::empty()) {
            Err(e) => Err(e),
            Ok(tokens) => match parsed(tokens) {
                Err(e) => Err(Fault::Meta(e)),
                Ok(deed) => actions_of(rules, lists.drop_first(), acc.push(deed)),
            },
        }
    }
}

/// What configuring a command gives: the query and the filter are expanded,
/// the actions are expanded and parsed, and the query and the filter are
/// compiled, in this order. The first error is the result.
pub open spec fn configured(rules: Rules, command: CommandText) -> Result<Plan, Fault> {
    match expansion_opt(rules, command.query) {
        Err(e) => Err(Fault::Expression(e)),
        Ok(query) => match expansion_opt(rules, command.filter) {
            Err(e) => Err(Fault::Expression(e)),
            Ok(filter) => match actions_of(rules, command.actions, Seq::<Deed>::empty()) {
                Err(e) => Err(e),
                Ok(actions) => match compiled_opt(query) {
                    Err(e) => Err(Fault::Expression(e)),
                    Ok(q) => match compiled_opt(filter) {
                        Err(e) => Err(Fault::Expression(e)),
                        Ok(f) => Ok(
                            Plan {
                                pipeline: Stages { query: q, filter: f, pipe: command.pipe },
                                actions,
                            },
                        ),
                    },
                },
            },
        },
    }
}

/// The forcings of all the actions of a list.
pub open spec fn forced(actions: Seq<Deed>) -> Forced {
    Forced {
        mapped: exists|i: int|
            0 <= i < actions.len() && is_api(#[trigger] actions[i]),
        filtered: false,
        piped: false,
    }
}

/// Whether an action is one of the library itself.
pub open spec fn is_api(deed: Deed) -> bool {
    deed is Emit || deed is Forget || deed is Report
}

/// Expands each text of a list.
fn expand_tokens(expand: &Expansions, tokens: &Vec<String>) -> (r: Result<Vec<String>, Error>)
    requires
        expand.wf(),
    ensures
        match expanded(expand@, texts(tokens@), Seq::<Seq<char>>::empty()) {
            Ok(list) => r matches Ok(v) && texts(v@) == list,
            Err(f) => r matches Err(e) && e@ == f,
        },
{
    let mut out: Vec<String> = Vec::new();
    let mut i: usize = 0;
    let ghost all = texts(tokens@);
    assert(all.skip(0) =~= all);
    assert(texts(out@) =~= Seq::<Seq<char>>::empty());
    while i < tokens.len()
        invariant
            i <= tokens@.len(),
            expand.wf(),
            all == texts(tokens@),
            expanded(expand@, all, Seq::<Seq<char>>::empty()) == expanded(
                expand@,
                all.skip(i as int),
                texts(out@),
            ),
        decreases tokens@.len() - i,
    {
        proof {
            assert(all.skip(i as int)[0] == tokens@[i as int]@);
            assert(all.skip(i as int).drop_first() =~= all.skip(i + 1));
        }
        match expand.expand(tokens[i].clone()) {
            Ok(t) => {
                proof {
                    assert(texts(out@.push(t)) =~= texts(out@).push(t@));
                }
                out.push(t);
            },
            Err(e) => {
                return Err(Error::Expression(e));
            },
        }
        i += 1;
    }
    Ok(out)
}

/// Whether a command holds the texts of a command of the configuration: its
/// two expressions have the expanded texts, each in one pair of
/// parentheses, and its pipe is the pipe as it stands.
pub open spec fn holds_texts(rules: Rules, command: CommandText, c: Command) -> bool {
    &&& (expansion_opt(rules, command.query) matches Ok(q) && raw_opt(
        c.pipeline_held().query_held(),
    ) == wrapped_opt(q))
    &&& (expansion_opt(rules, command.filter) matches Ok(f) && raw_opt(
        c.pipeline_held().filter_held(),
    ) == wrapped_opt(f))
    &&& text_opt(c.pipeline_held().pipe_held()) == command.pipe
}

impl Command {
    /// The pipeline of the command, as it was made.
    pub closed spec fn pipeline_held(&self) -> Pipeline {
        self.pipeline
    }

    /// Configures a command of the configuration: expands its texts and the
    /// tokens of its actions, parses the actions and compiles the query and
    /// the filter. The texts of the two expressions are the expanded texts,
    /// each in one pair of parentheses.
    pub fn configure(config: config::Command, expand: &Expansions) -> (r: Result<Self, Error>)
        requires
            expand.wf(),
        ensures
            match configured(expand@, config@) {
                Ok(plan) => r matches Ok(c) && c@ == plan && holds_texts(expand@, config@, c),
                Err(f) => r matches Err(e) && e@ == f,
            },
    {
        let ghost text = config@;
        let lists = config.actions;
        let buf = config::PipelineBuf { query: config.query, filter: config.filter, pipe: config.pipe };
        let pipeline = match buf.expand(expand) {
            Ok(p) => p,
            Err(e) => {
                return Err(Error::Expression(e));
            },
        };
        let mut actions: Vec<Action> = Vec::new();
        let mut i: usize = 0;
        let ghost all = token_lists(lists@);
        assert(all.skip(0) =~= all);
        assert(deeds(actions@) =~= Seq::<Deed>::empty());
        while i < lists.len()
            invariant
                i <= lists@.len(),
                expand.wf(),
                all == token_lists(lists@),
                text == config@,
                text.actions == all,
                expansion_opt(expand@, text.query) is Ok,
                expansion_opt(expand@, text.filter) is Ok,
                actions_of(expand@, all, Seq::<Deed>::empty()) == actions_of(
                    expand@,
                    all.skip(i as int),
                    deeds(actions@),
                ),
            decreases lists@.len() - i,
        {
            proof {
                assert(all.skip(i as int)[0] == texts(lists@[i as int]@));
                assert(all.skip(i as int).drop_first() =~= all.skip(i + 1));
            }
            let tokens = match expand_tokens(expand, &lists[i]) {
                Ok(tokens) => tokens,
                Err(e) => {
                    return Err(e);
                },
            };
            match Action::parse(tokens) {
                Ok(a) => {
                    proof {
                        assert(deeds(actions@.push(a)) =~= deeds(actions@).push(a@));
                    }
                    actions.push(a);
                },
                Err(e) => {
                    return Err(Error::Meta(e));
                },
            }
            i += 1;
        }
        match Pipeline::from_pipeline(pipeline) {
            Ok(pipeline) => Ok(Command { pipeline, actions }),
            Err(e) => Err(Error::Expression(e)),
        }
    }

    /// How far the query of the command must be driven for its actions: the
    /// forcings of all of them.
    pub fn forcings(&self) -> (f: Forcings)
        ensures
            f.wf(),
            f@ == forced(self@.actions),
    {
        let mut forcings = Forcings::new();
        let mut i: usize = 0;
        let ghost all = deeds(self.actions@);
        while i < self.actions.len()
            invariant
                i <= self.actions@.len(),
                all == deeds(self.actions@),
                forcings.wf(),
                forcings@ == forced(all.take(i as int)),
            decreases self.actions@.len() - i,
        {
            let ghost before = forcings@;
            forcings = forcings.combine(self.actions[i].forcings());
            proof {
                let done = all.take(i as int);
                let next = all.take(i as int + 1);
                assert(next =~= done.push(all[i as int]));
                assert(all[i as int] == self.actions@[i as int]@);
                assert(is_api(all[i as int]) == (self.actions@[i as int] is Api));
                if forced(next).mapped {
                    let k = choose|k: int| 0 <= k < next.len() && is_api(#[trigger] next[k]);
                    if k < done.len() {
                        assert(done[k] == next[k]);
                    }
                }
                if forced(done).mapped {
                    let k = choose|k: int| 0 <= k < done.len() && is_api(#[trigger] done[k]);
                    assert(next[k] == done[k]);
                }
                if is_api(all[i as int]) {
                    assert(next[i as int] == all[i as int]);
                }
            }
            i += 1;
        }
        assert(all.take(i as int) =~= all);
        forcings
    }

    /// The command of a pipeline and of one action of a command line.
    pub fn from_command_action(pipeline: Pipeline, action: &CommandAction) -> (c: Self)
        ensures
            c.pipeline_held() == pipeline,
            c@.pipeline == pipeline@,
            c@.actions.len() == 1,
            c@.actions[0] == action::named(action),
    {
        let mut actions: Vec<Action> = Vec::new();
        actions.push(Action::from_command_action(action));
        Command { pipeline, actions }
    }

    /// The expression that selects in the store.
    pub fn query(&self) -> (q: &Option<Expression>)
        ensures
            *q == self.pipeline_held().query_held(),
            crate::expression::expression::tree_opt(*q) == self@.pipeline.query,
    {
        self.pipeline.get_query()
    }

    /// The expression that filters the selection.
    pub fn filter(&self) -> (f: &Option<Expression>)
        ensures
            *f == self.pipeline_held().filter_held(),
            crate::expression::expression::tree_opt(*f) == self@.pipeline.filter,
    {
        self.pipeline.get_filter()
    }

    /// The shell command that the selection is piped through.
    pub fn pipe(&self) -> (p: &Option<String>)
        ensures
            *p == self.pipeline_held().pipe_held(),
            text_opt(*p) == self@.pipeline.pipe,
    {
        self.pipeline.get_pipe()
    }

    /// The pipeline of the command.
    pub fn pipeline(&self) -> (p: &Pipeline)
        ensures
            *p == self.pipeline_held(),
            p@ == self@.pipeline,
    {
        &self.pipeline
    }

    /// The actions of the command.
    pub fn actions(&self) -> (a: &Vec<Action>)
        ensures
            deeds(a@) == self@.actions,
    {
        &self.actions
    }
}

/// A configured convention: a comment and the commands to run.
#[derive(Debug)]
pub struct Convention {
    comment: Option<String>,
    commands: Vec<Command>,
}

/// A [`Convention`] as plain values.
pub struct Rule {
    pub comment: Option<Seq<char>>,
    pub commands: Seq<Plan>,
}

/// The views of a list of commands.
pub open spec fn plans(commands: Seq<Command>) -> Seq<Plan> {
    commands.map_values(|c: Command| c@)
}

impl View for Convention {
    type V = Rule;

    closed spec fn view(&self) -> Rule {
        Rule { comment: text_opt(self.comment), commands: plans(self.commands@) }
    }
}

/// The commands of a list of applications of templates, added to `acc`. An
/// application of a template that there is not, and a command that cannot be
/// configured, are errors.
pub open spec fn instantiated(
    rules: Rules,
    templates: Map<Seq<char>, crate::app::meta::template::Pattern>,
    instances: Seq<(Seq<char>, Seq<Seq<char>>)>,
    acc: Seq<Plan>,
) -> Result<Seq<Plan>, Fault>
    decreases instances.len(),
{
    if instances.len() == 0 {
        Ok(acc)
    } else if !templates.contains_key(instances[0].0) {
        Err(Fault::Meta(meta::Fault::UnknownTemplate { template: instances[0].0 }))
    } else {
        match instance(templates[instances[0].0], instances[0].1, rules) {
            Err(e) => Err(e),
            Ok(more) => instantiated(rules, templates, instances.drop_first(), acc + more),
        }
    }
}

/// The commands of a list that can be configured, added to `acc`; the others
/// are left out.
pub open spec fn configurable(rules: Rules, commands: Seq<CommandText>, acc: Seq<Plan>) -> Seq<
    Plan,
>
    decreases commands.len(),
{
    if commands.len() == 0 {
        acc
    } else {
        match configured(rules, commands[0]) {
            Ok(plan) => configurable(rules, commands.drop_first(), acc.push(plan)),
            Err(_) => configurable(rules, commands.drop_first(), acc),
        }
    }
}

/// The applications of templates of a convention, as plain values.
pub open spec fn instance_list(instances: Option<Vec<config::Instance>>) -> Seq<
    (Seq<char>, Seq<Seq<char>>),
> {
    match instances {
        None => Seq::<(Seq<char>, Seq<Seq<char>>)>::empty(),
        Some(list) => list@.map_values(|i: config::Instance| (i.name@, texts(i.args@))),
    }
}

/// The commands of a convention, as plain values.
pub open spec fn command_list(commands: Option<Vec<config::Command>>) -> Seq<CommandText> {
    match commands {
        None => Seq::<CommandText>::empty(),
        Some(list) => list@.map_values(|c: config::Command| c@),
    }
}

/// The views of the templates of a table.
pub open spec fn patterns(templates: Map<Seq<char>, Template>) -> Map<
    Seq<char>,
    crate::app::meta::template::Pattern,
> {
    templates.map_values(|t: Template| t@)
}

impl Convention {
    /// A convention without comment or commands.
    pub fn new() -> (c: Self)
        ensures
            c@ == (Rule { comment: None, commands: Seq::<Plan>::empty() }),
    {
        let c = Convention { comment: None, commands: Vec::new() };
        assert(c@.commands =~= Seq::<Plan>::empty());
        c
    }

    /// The convention with a comment.
    pub fn with_comment(self, comment: String) -> (c: Self)
        ensures
            c@ == (Rule { comment: Some(comment@), ..self@ }),
    {
        let mut this = self;
        this.comment = Some(comment);
        this
    }

    /// The convention of a list of commands.
    pub fn from_commands(commands: Vec<Command>) -> (c: Self)
        ensures
            c@ == (Rule { comment: None, commands: plans(commands@) }),
    {
        Convention { comment: None, commands }
    }

    /// Configures a convention of the configuration: first the commands of
    /// its applications of templates, then those of its own commands that
    /// can be configured.
    pub fn configure(
        config: config::Convention,
        expand: &Expansions,
        templates: &VecMap<String, Template>,
    ) -> (r: Result<Self, Error>)
        requires
            expand.wf(),
            templates.wf(),
        ensures
            match instantiated(
                expand@,
                patterns(templates@),
                instance_list(config.instances),
                Seq::<Plan>::empty(),
            ) {
                Err(f) => r matches Err(e) && e@ == f,
                Ok(first) => r matches Ok(c) && c@ == (Rule {
                    comment: text_opt(config.comment),
                    commands: configurable(expand@, command_list(config.commands), first),
                }),
            },
    {
        let mut commands: Vec<Command> = Vec::new();
        let ghost all = instance_list(config.instances);
        let ghost known = patterns(templates@);
        assert(plans(commands@) =~= Seq::<Plan>::empty());
        match &config.instances {
            Some(instances) => {
                let mut i: usize = 0;
                assert(all.skip(0) =~= all);
                while i < instances.len()
                    invariant
                        i <= instances@.len(),
                        expand.wf(),
                        templates.wf(),
                        known == patterns(templates@),
                        all == instance_list(config.instances),
                        all == instances@.map_values(
                            |i: config::Instance| (i.name@, texts(i.args@)),
                        ),
                        instantiated(expand@, known, all, Seq::<Plan>::empty()) == instantiated(
                            expand@,
                            known,
                            all.skip(i as int),
                            plans(commands@),
                        ),
                    decreases instances@.len() - i,
                {
                    let inst = &instances[i];
                    proof {
                        assert(all.skip(i as int)[0] == (inst.name@, texts(inst.args@)));
                        assert(all.skip(i as int).drop_first() =~= all.skip(i + 1));
                    }
                    let template = match templates.get(&inst.name) {
                        Some(template) => template,
                        None => {
                            return Err(
                                Error::Meta(
                                    meta::Error::UnknownTemplate { template: inst.name.clone() },
                                ),
                            );
                        },
                    };
                    let mut more = match template.instantiate(&inst.args, expand) {
                        Ok(more) => more,
                        Err(e) => {
                            return Err(e);
                        },
                    };
                    let ghost before = plans(commands@);
                    let ghost added = plans(more@);
                    commands.append(&mut more);
                    proof {
                        assert(plans(commands@) =~= before + added);
                    }
                    i += 1;
                }
            },
            None => {},
        }
        let ghost first = plans(commands@);
        let ghost own = command_list(config.commands);
        match config.commands {
            Some(list) => {
                let mut k: usize = 0;
                assert(own.skip(0) =~= own);
                while k < list.len()
                    invariant
                        k <= list@.len(),
                        expand.wf(),
                        own == list@.map_values(|c: config::Command| c@),
                        configurable(expand@, own, first) == configurable(
                            expand@,
                            own.skip(k as int),
                            plans(commands@),
                        ),
                    decreases list@.len() - k,
                {
                    proof {
                        assert(own.skip(k as int)[0] == list@[k as int]@);
                        assert(own.skip(k as int).drop_first() =~= own.skip(k + 1));
                    }
                    match Command::configure(list[k].replica(), expand) {
                        Ok(c) => {
                            proof {
                                assert(plans(commands@.push(c)) =~= plans(commands@).push(c@));
                            }
                            commands.push(c);
                        },
                        Err(_) => {},
                    }
                    k += 1;
                }
            },
            None => {},
        }
        Ok(Convention { comment: config.comment, commands })
    }

    /// The convention of one command: a pipeline and one action of a command
    /// line.
    pub fn from_command_action(pipeline: Pipeline, action: &CommandAction) -> (c: Self)
        ensures
            c@.comment is None,
            c@.commands.len() == 1,
            c@.commands[0].pipeline == pipeline@,
            c@.commands[0].actions.len() == 1,
            c@.commands[0].actions[0] == action::named(action),
    {
        let mut commands: Vec<Command> = Vec::new();
        commands.push(Command::from_command_action(pipeline, action));
        Convention { comment: None, commands }
    }

    /// The comment of the convention.
    pub fn comment(&self) -> (c: &Option<String>)
        ensures
            text_opt(*c) == self@.comment,
    {
        &self.comment
    }

    /// The commands of the convention.
    pub fn commands(&self) -> (c: &Vec<Command>)
        ensures
            plans(c@) == self@.commands,
    {
        &self.commands
    }
}

/// The summaries of the actions of one command.
#[derive(Debug, PartialEq, Eq)]
pub struct Summary {
    pub actions: Vec<action::Summary>,
}

/// The text of a summary of one action.
pub open spec fn summary_text(s: action::Summary) -> Seq<char> {
    s.action@ + seq!['\n'] + crate::util::string::join(texts(s.reports@), seq!['\n'])
}

/// The texts of a list of summaries, one after the other.
pub open spec fn summary_texts(list: Seq<action::Summary>) -> Seq<char>
    decreases list.len(),
{
    if list.len() == 0 {
        Seq::<char>::empty()
    } else {
        summary_texts(list.drop_last()) + summary_text(list.last())
    }
}

impl Summary {
    /// The summaries as one text, one after the other.
    pub fn format(&self) -> (s: String)
        ensures
            s@ == summary_texts(self.actions@),
    {
        let mut buffer: Vec<char> = Vec::new();
        let mut i: usize = 0;
        assert(self.actions@.take(0) =~= Seq::<action::Summary>::empty());
        while i < self.actions.len()
            invariant
                i <= self.actions@.len(),
                buffer@ == summary_texts(self.actions@.take(i as int)),
            decreases self.actions@.len() - i,
        {
            let text = self.actions[i].format();
            proof {
                let next = self.actions@.take(i as int + 1);
                assert(next.drop_last() =~= self.actions@.take(i as int));
                assert(next.last() == self.actions@[i as int]);
            }
            append_str(&mut buffer, text.as_str());
            i += 1;
        }
        assert(self.actions@.take(i as int) =~= self.actions@);
        collect(&buffer)
    }
}

/// The reports of the actions of one command.
pub struct Report<'a> {
    command: &'a Command,
    reports: Vec<action::Report<'a>>,
}

impl<'a> Report<'a> {
    /// The command.
    pub closed spec fn command(&self) -> &Command {
        self.command
    }

    /// The reports, in the order in which they came.
    pub closed spec fn reports(&self) -> Seq<action::Report<'a>> {
        self.reports@
    }

    /// An empty report of a command.
    pub fn new(command: &'a Command) -> (r: Self)
        ensures
            *r.command() == *command,
            r.reports().len() == 0,
    {
        Report { command, reports: Vec::new() }
    }

    /// Adds the report of an action.
    pub fn add_report(&mut self, report: action::Report<'a>)
        ensures
            *final(self).command() == *old(self).command(),
            final(self).reports() == old(self).reports().push(report),
    {
        self.reports.push(report)
    }

    /// The summaries of the reports, in their order.
    pub fn summarize(&self) -> (s: Summary)
        ensures
            s.actions@.len() == self.reports().len(),
            forall|i: int|
                0 <= i < s.actions@.len() ==> action::summarizes(
                    #[trigger] s.actions@[i],
                    self.reports()[i]@,
                ),
    {
        let mut actions: Vec<action::Summary> = Vec::new();
        let mut i: usize = 0;
        while i < self.reports.len()
            invariant
                i <= self.reports@.len(),
                actions@.len() == i,
                forall|k: int|
                    0 <= k < i ==> action::summarizes(#[trigger] actions@[k], self.reports@[k]@),
            decreases self.reports@.len() - i,
        {
            actions.push(self.reports[i].summarize());
            i += 1;
        }
        Summary { actions }
    }
}

/// The summaries of the commands of one convention.
#[derive(Debug)]
pub struct FieldReport {
    comment: Option<String>,
    summaries: Vec<Summary>,
}

/// The texts of a list of summaries of commands, one after the other.
pub open spec fn field_texts(list: Seq<Summary>) -> Seq<char>
    decreases list.len(),
{
    if list.len() == 0 {
        Seq::<char>::empty()
    } else {
        field_texts(list.drop_last()) + summary_texts(list.last().actions@)
    }
}

impl FieldReport {
    /// The comment of the convention.
    pub closed spec fn comment(&self) -> Option<Seq<char>> {
        text_opt(self.comment)
    }

    /// The summaries, in the order in which they came.
    pub closed spec fn summaries(&self) -> Seq<Summary> {
        self.summaries@
    }

    /// An empty report of a convention.
    pub fn new(convention: &Convention) -> (r: Self)
        ensures
            r.comment() == convention@.comment,
            r.summaries().len() == 0,
    {
        FieldReport { comment: config::clone_text(&convention.comment), summaries: Vec::new() }
    }

    /// Adds the summary of a command.
    pub fn add_summary(&mut self, summary: Summary)
        ensures
            final(self).comment() == old(self).comment(),
            final(self).summaries() == old(self).summaries().push(summary),
    {
        self.summaries.push(summary)
    }

    /// The summaries as one text, one after the other.
    pub fn format(&self) -> (s: String)
        ensures
            s@ == field_texts(self.summaries()),
    {
        let mut buffer: Vec<char> = Vec::new();
        let mut i: usize = 0;
        assert(self.summaries@.take(0) =~= Seq::<Summary>::empty());
        while i < self.summaries.len()
            invariant
                i <= self.summaries@.len(),
                buffer@ == field_texts(self.summaries@.take(i as int)),
            decreases self.summaries@.len() - i,
        {
            let text = self.summaries[i].format();
            proof {
                let next = self.summaries@.take(i as int + 1);
                assert(next.drop_last() =~= self.summaries@.take(i as int));
                assert(next.last() == self.summaries@[i as int]);
            }
            append_str(&mut buffer, text.as_str());
            i += 1;
        }
        assert(self.summaries@.take(i as int) =~= self.summaries@);
        collect(&buffer)
    }
}

} // verus!
