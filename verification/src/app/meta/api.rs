//! The configuration, configured: macros, templates and conventions.
use crate::app::meta::command::{
    command_list,
    configurable,
    instance_list,
    instantiated,
    patterns,
    Convention,
    Plan,
    Rule,
};
use crate::app::meta::config;
use crate::app::meta::config::{texts, Config};
use crate::app::meta::template::{command_texts, Pattern, Template};
use crate::expression::error as expression;
use crate::expression::expansion::{expansion, Expansions, Rules, RECURSION_LIMIT};
use crate::expression::expression::text_opt;
use crate::util::error::{Error, Fault};
use crate::util::table::{Key, VecMap};
use vstd::prelude::*;

verus! {

/// The configured macros, templates and conventions.
pub struct Configuration {
    pub templates: VecMap<String, Template>,
    pub conventions: Vec<Convention>,
    pub expansions: Expansions,
}

/// The macros of a dictionary, with `{{` and `}}` as delimiters.
pub open spec fn dictionary_rules(dictionary: Option<VecMap<String, String>>) -> Rules {
    Rules {
        limit: RECURSION_LIMIT as nat,
        open: seq!['{', '{'],
        close: seq!['}', '}'],
        before: Seq::<char>::empty(),
        after: Seq::<char>::empty(),
        map: match dictionary {
            Some(d) => d@.map_values(|v: String| v@),
            None => Map::<Seq<char>, Seq<char>>::empty(),
        },
    }
}

/// The templates of the configuration, each with its name.
pub open spec fn named_templates(templates: Option<VecMap<String, config::Template>>) -> Map<
    Seq<char>,
    Pattern,
> {
    match templates {
        None => Map::<Seq<char>, Pattern>::empty(),
        Some(t) => Map::new(
            |name: Seq<char>| t@.contains_key(name),
            |name: Seq<char>|
                Pattern {
                    name,
                    parameters: texts(t@[name].parameters@),
                    commands: command_texts(t@[name].commands@),
                },
        ),
    }
}

/// What configuring a convention gives.
pub open spec fn convention_rule(
    rules: Rules,
    known: Map<Seq<char>, Pattern>,
    convention: config::Convention,
) -> Result<Rule, Fault> {
    match instantiated(rules, known, instance_list(convention.instances), Seq::<Plan>::empty()) {
        Err(f) => Err(f),
        Ok(first) => Ok(
            Rule {
                comment: text_opt(convention.comment),
                commands: configurable(rules, command_list(convention.commands), first),
            },
        ),
    }
}

/// The conventions of a list, each configured; the first error ends the
/// list.
pub open spec fn convention_rules(
    rules: Rules,
    known: Map<Seq<char>, Pattern>,
    conventions: Seq<config::Convention>,
    acc: Seq<Rule>,
) -> Result<Seq<Rule>, Fault>
    decreases conventions.len(),
{
    if conventions.len() == 0 {
        Ok(acc)
    } else {
        match convention_rule(rules, known, conventions[0]) {
            Err(f) => Err(f),
            Ok(rule) => convention_rules(rules, known, conventions.drop_first(), acc.push(rule)),
        }
    }
}

/// The views of a list of conventions.
pub open spec fn rules_of(conventions: Seq<Convention>) -> Seq<Rule> {
    conventions.map_values(|c: Convention| c@)
}

/// The conventions of the configuration.
pub open spec fn convention_list(conventions: Option<Vec<config::Convention>>) -> Seq<
    config::Convention,
> {
    match conventions {
        None => Seq::<config::Convention>::empty(),
        Some(list) => list@,
    }
}

/// Whether the tables of a configuration are well formed.
pub open spec fn config_wf(config: Config) -> bool {
    &&& config.dictionary matches Some(d) ==> d.wf()
    &&& config.templates matches Some(t) ==> t.wf()
}

impl Configuration {
    /// The tables are well formed.
    pub open spec fn wf(&self) -> bool {
        self.templates.wf() && self.expansions.wf()
    }

    /// Configures the configuration: the dictionary becomes the macros, each
    /// template gets its name, and each convention is configured with them.
    pub fn configure(config: Config) -> (r: Result<Self, Error>)
        requires
            config_wf(config),
        ensures
            match convention_rules(
                dictionary_rules(config.dictionary),
                named_templates(config.templates),
                convention_list(config.conventions),
                Seq::<Rule>::empty(),
            ) {
                Err(f) => r matches Err(e) && e@ == f,
                Ok(rules) => r matches Ok(c) && c.wf() && c.expansions@ == dictionary_rules(
                    config.dictionary,
                ) && patterns(c.templates@) == named_templates(config.templates) && rules_of(
                    c.conventions@,
                ) == rules,
            },
    {
        proof {
            reveal_strlit("{{");
            reveal_strlit("}}");
            assert("{{"@ =~= seq!['{', '{']);
            assert("}}"@ =~= seq!['}', '}']);
        }
        let ghost given = config;
        let expansions = match config.dictionary {
            Some(d) => Expansions::from_map(("{{", "}}"), d),
            None => Expansions::new(("{{", "}}")),
        };
        let mut templates: VecMap<String, Template> = VecMap::new();
        let ghost target = named_templates(given.templates);
        match config.templates {
            Some(t) => {
                let mut t = t;
                let ghost whole = t@;
                proof {
                    assert(patterns(templates@) =~= target.restrict(
                        whole.dom().difference(t@.dom()),
                    ));
                }
                loop
                    invariant
                        t.wf(),
                        templates.wf(),
                        whole == given.templates->Some_0@,
                        given.templates is Some,
                        target == named_templates(given.templates),
                        forall|q: Seq<char>| #[trigger]
                            t@.contains_key(q) ==> whole.contains_key(q) && whole[q] == t@[q],
                        patterns(templates@) == target.restrict(whole.dom().difference(t@.dom())),
                    ensures
                        templates.wf(),
                        patterns(templates@) == target,
                    decreases t.keys().len(),
                {
                    let ghost before = t@;
                    let ghost done = patterns(templates@);
                    match t.pop() {
                        None => {
                            proof {
                                t.lemma_entries();
                                assert(t.keys() =~= Seq::<Seq<char>>::empty());
                                assert(t@.dom() =~= Set::<Seq<char>>::empty());
                                assert(target.restrict(whole.dom().difference(t@.dom()))
                                    =~= target);
                            }
                            break ;
                        },
                        Some((k, v)) => {
                            let template = Template::configure(k.clone(), v);
                            proof {
                                assert(before.contains_key(k@));
                                assert(before[k@] == v);
                                assert(whole.contains_key(k@) && whole[k@] == v);
                                assert(template@ == target[k@]);
                            }
                            templates.insert(k, template);
                            proof {
                                assert(patterns(templates@) =~= done.insert(k@, template@));
                                assert(done.insert(k@, template@) =~= target.restrict(
                                    whole.dom().difference(t@.dom()),
                                ));
                            }
                        },
                    }
                }
            },
            None => {
                proof {
                    assert(patterns(templates@) =~= target);
                }
            },
        }
        let mut conventions: Vec<Convention> = Vec::new();
        let ghost all = convention_list(given.conventions);
        let ghost rules = dictionary_rules(given.dictionary);
        assert(rules_of(conventions@) =~= Seq::<Rule>::empty());
        match config.conventions {
            Some(list) => {
                let mut list = reversed(list);
                let ghost n = all.len() as int;
                assert(all.skip(0) =~= all);
                while list.len() > 0
                    invariant
                        expansions.wf(),
                        templates.wf(),
                        expansions@ == rules,
                        patterns(templates@) == target,
                        given == config,
                        rules == dictionary_rules(given.dictionary),
                        target == named_templates(given.templates),
                        all == convention_list(given.conventions),
                        n == all.len(),
                        list@.len() <= n,
                        list@ == all.skip(n - list@.len()).reverse(),
                        convention_rules(rules, target, all, Seq::<Rule>::empty())
                            == convention_rules(
                            rules,
                            target,
                            all.skip(n - list@.len()),
                            rules_of(conventions@),
                        ),
                    decreases list@.len(),
                {
                    let ghost m = list@.len() as int;
                    let ghost rest = all.skip(n - m);
                    let convention = list.pop().unwrap();
                    proof {
                        assert(convention == rest.reverse()[m - 1]);
                        assert(rest.reverse()[m - 1] == rest[0]);
                        assert(rest.drop_first() =~= all.skip(n - m + 1));
                        assert(list@ =~= all.skip(n - m + 1).reverse());
                    }
                    match Convention::configure(convention, &expansions, &templates) {
                        Ok(c) => {
                            proof {
                                assert(rules_of(conventions@.push(c)) =~= rules_of(
                                    conventions@,
                                ).push(c@));
                            }
                            conventions.push(c);
                        },
                        Err(e) => {
                            return Err(e);
                        },
                    }
                }
                proof {
                    assert(all.skip(n) =~= Seq::<config::Convention>::empty());
                }
            },
            None => {},
        }
        Ok(Configuration { expansions, conventions, templates })
    }

    /// Adds a template under its name, in place of the one that had it.
    pub fn add_template(&mut self, template: Template)
        requires
            old(self).wf(),
        ensures
            final(self).wf(),
            final(self).templates@ == old(self).templates@.insert(template@.name, template),
            final(self).conventions == old(self).conventions,
            final(self).expansions == old(self).expansions,
    {
        let name = template.name().to_owned();
        self.templates.insert(name, template);
    }

    /// Adds a convention after those that are there.
    pub fn add_convention(&mut self, convention: Convention)
        ensures
            final(self).conventions@ == old(self).conventions@.push(convention),
            final(self).templates == old(self).templates,
            final(self).expansions == old(self).expansions,
    {
        self.conventions.push(convention);
    }

    /// The macros.
    pub fn expansions(&self) -> (e: &Expansions)
        ensures
            *e == self.expansions,
    {
        &self.expansions
    }

    /// Expands a text with the macros.
    pub fn expand(&self, dir: String) -> (r: Result<String, expression::Error>)
        requires
            self.wf(),
        ensures
            match expansion(self.expansions@, dir@, self.expansions@.limit) {
                Ok(s) => r matches Ok(t) && t@ == s,
                Err(f) => r matches Err(e) && e@ == f,
            },
    {
        self.expansions.expand(dir)
    }
}

/// The items of a list in the opposite order.
pub fn reversed<T>(list: Vec<T>) -> (r: Vec<T>)
    ensures
        r@ == list@.reverse(),
{
    let mut list = list;
    let mut r: Vec<T> = Vec::new();
    let ghost all = list@;
    assert(all.skip(all.len() as int).reverse() =~= Seq::<T>::empty());
    while list.len() > 0
        invariant
            list@.len() <= all.len(),
            list@ == all.take(list@.len() as int),
            r@ == all.skip(list@.len() as int).reverse(),
        decreases list@.len(),
    {
        let ghost n = list@.len() as int;
        let item = list.pop().unwrap();
        proof {
            assert(list@ =~= all.take(n - 1));
            assert(item == all[n - 1]);
            assert(all.skip(n - 1).reverse() =~= all.skip(n).reverse().push(all[n - 1]));
        }
        r.push(item);
    }
    proof {
        assert(all.skip(0) =~= all);
    }
    r
}

} // verus!
