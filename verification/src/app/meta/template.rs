//! Templates: commands with parameters.
use crate::app::meta::command::{configured, plans, Command, Plan};
use crate::app::meta::config;
use crate::app::meta::config::{texts, CommandText};
use crate::expression::expansion::{Expansions, Rules, RECURSION_LIMIT};
use crate::util::error::{Error, Fault};
use vstd::prelude::*;

verus! {

/// A configured template.
#[derive(Debug)]
pub struct Template {
    name: String,
    parameters: Vec<String>,
    commands: Vec<config::Command>,
}

/// A [`Template`] as plain values.
pub struct Pattern {
    pub name: Seq<char>,
    pub parameters: Seq<Seq<char>>,
    pub commands: Seq<CommandText>,
}

/// The views of a list of commands of the configuration.
pub open spec fn command_texts(commands: Seq<config::Command>) -> Seq<CommandText> {
    commands.map_values(|c: config::Command| c@)
}

impl View for Template {
    type V = Pattern;

    closed spec fn view(&self) -> Pattern {
        Pattern {
            name: self.name@,
            parameters: texts(self.parameters@),
            commands: command_texts(self.commands@),
        }
    }
}

/// The macros that bind the parameters of a template to arguments: each
/// parameter to the argument at its position, as far as both lists go. A
/// later binding of a name replaces an earlier one.
pub open spec fn bindings(parameters: Seq<Seq<char>>, args: Seq<Seq<char>>) -> Map<
    Seq<char>,
    Seq<char>,
>
    decreases parameters.len(),
{
    if parameters.len() == 0 || args.len() == 0 {
        Map::<Seq<char>, Seq<char>>::empty()
    } else if parameters.len() > args.len() {
        bindings(parameters.take(args.len() as int), args)
    } else {
        bindings(parameters.drop_last(), args).insert(
            parameters.last(),
            args[parameters.len() - 1],
        )
    }
}

/// The macros in whose scope the commands of a template are configured: the
/// bindings of its parameters, and over them the macros of the configuration.
pub open spec fn scope(parameters: Seq<Seq<char>>, args: Seq<Seq<char>>, rules: Rules) -> Rules {
    Rules {
        limit: RECURSION_LIMIT as nat,
        open: seq!['{', '{'],
        close: seq!['}', '}'],
        before: Seq::<char>::empty(),
        after: Seq::<char>::empty(),
        map: bindings(parameters, args).union_prefer_right(rules.map),
    }
}

/// The commands of a list, each configured in a scope; the first error ends
/// the list.
pub open spec fn configured_all(rules: Rules, commands: Seq<CommandText>, acc: Seq<Plan>) -> Result<
    Seq<Plan>,
    Fault,
>
    decreases commands.len(),
{
    if commands.len() == 0 {
        Ok(acc)
    } else {
        match configured(rules, commands[0]) {
            Ok(plan) => configured_all(rules, commands.drop_first(), acc.push(plan)),
            Err(e) => Err(e),
        }
    }
}

/// The commands of a template for a list of arguments.
pub open spec fn instance(pattern: Pattern, args: Seq<Seq<char>>, rules: Rules) -> Result<
    Seq<Plan>,
    Fault,
> {
    configured_all(scope(pattern.parameters, args, rules), pattern.commands, Seq::<Plan>::empty())
}

impl Template {
    /// The template of the configuration with a name.
    pub fn configure(name: String, config: config::Template) -> (t: Self)
        ensures
            t@ == (Pattern {
                name: name@,
                parameters: texts(config.parameters@),
                commands: command_texts(config.commands@),
            }),
    {
        Template { name, parameters: config.parameters, commands: config.commands }
    }

    /// The macros that bind the parameters to arguments.
    pub fn parameter_expansions(&self, args: &Vec<String>) -> (e: Expansions)
        ensures
            e.wf(),
            e@ == (Rules {
                limit: RECURSION_LIMIT as nat,
                open: seq!['{', '{'],
                close: seq!['}', '}'],
                before: Seq::<char>::empty(),
                after: Seq::<char>::empty(),
                map: bindings(self@.parameters, texts(args@)),
            }),
    {
        proof {
            reveal_strlit("{{");
            reveal_strlit("}}");
            assert("{{"@ =~= seq!['{', '{']);
            assert("}}"@ =~= seq!['}', '}']);
        }
        let mut expansions = Expansions::new(("{{", "}}"));
        let n = if self.parameters.len() < args.len() {
            self.parameters.len()
        } else {
            args.len()
        };
        let ghost ps = texts(self.parameters@);
        let ghost xs = texts(args@);
        let mut i: usize = 0;
        assert(ps.take(0) =~= Seq::<Seq<char>>::empty());
        while i < n
            invariant
                i <= n,
                n <= self.parameters@.len(),
                n <= args@.len(),
                ps == texts(self.parameters@),
                xs == texts(args@),
                expansions.wf(),
                expansions@ == (Rules {
                    limit: RECURSION_LIMIT as nat,
                    open: seq!['{', '{'],
                    close: seq!['}', '}'],
                    before: Seq::<char>::empty(),
                    after: Seq::<char>::empty(),
                    map: bindings(ps.take(i as int), xs),
                }),
            decreases n - i,
        {
            proof {
                let next = ps.take(i as int + 1);
                assert(next.drop_last() =~= ps.take(i as int));
                assert(next.last() == self.parameters@[i as int]@);
                assert(xs[i as int] == args@[i as int]@);
            }
            expansions.add(self.parameters[i].clone(), args[i].clone());
            i += 1;
        }
        proof {
            if ps.len() > xs.len() {
                assert(n == xs.len());
            } else {
                assert(ps.take(n as int) =~= ps);
                if ps.len() == 0 || xs.len() == 0 {
                    assert(bindings(ps, xs) =~= Map::<Seq<char>, Seq<char>>::empty());
                }
            }
            if xs.len() == 0 {
                assert(bindings(ps, xs) =~= Map::<Seq<char>, Seq<char>>::empty());
                assert(bindings(ps.take(0), xs) =~= Map::<Seq<char>, Seq<char>>::empty());
            }
        }
        expansions
    }

    /// The commands of the template for a list of arguments, configured in
    /// the scope of its parameters and of the macros of the configuration.
    pub fn instantiate(&self, args: &Vec<String>, expand: &Expansions) -> (r: Result<
        Vec<Command>,
        Error,
    >)
        requires
            expand.wf(),
        ensures
            match instance(self@, texts(args@), expand@) {
                Ok(list) => r matches Ok(v) && plans(v@) == list,
                Err(f) => r matches Err(e) && e@ == f,
            },
    {
        let params = self.parameter_expansions(args).extend(expand.replica());
        let mut out: Vec<Command> = Vec::new();
        let mut i: usize = 0;
        let ghost all = command_texts(self.commands@);
        assert(all.skip(0) =~= all);
        assert(plans(out@) =~= Seq::<Plan>::empty());
        while i < self.commands.len()
            invariant
                i <= self.commands@.len(),
                params.wf(),
                all == command_texts(self.commands@),
                all == self@.commands,
                params@ == scope(self@.parameters, texts(args@), expand@),
                configured_all(params@, all, Seq::<Plan>::empty()) == configured_all(
                    params@,
                    all.skip(i as int),
                    plans(out@),
                ),
            decreases self.commands@.len() - i,
        {
            proof {
                assert(all.skip(i as int)[0] == self.commands@[i as int]@);
                assert(all.skip(i as int).drop_first() =~= all.skip(i + 1));
            }
            match Command::configure(self.commands[i].replica(), &params) {
                Ok(c) => {
                    proof {
                        assert(plans(out@.push(c)) =~= plans(out@).push(c@));
                    }
                    out.push(c);
                },
                Err(e) => {
                    return Err(e);
                },
            }
            i += 1;
        }
        Ok(out)
    }

    /// The name of the template.
    pub fn name(&self) -> (n: &str)
        ensures
            n@ == self@.name,
    {
        self.name.as_str()
    }

    /// The commands of the template.
    pub fn commands(&self) -> (c: &Vec<config::Command>)
        ensures
            command_texts(c@) == self@.commands,
    {
        &self.commands
    }
}

} // verus!
