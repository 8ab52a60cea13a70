use std::collections::BTreeMap;
use tag_suite::app::attr::file::Store;
use tag_suite::app::attr::File;
use tag_suite::app::data::query::state::{Event, Request};
use tag_suite::app::data::query::{Forcings, Pipeline, Query, Results};
use tag_suite::app::meta::action::Effect;
use tag_suite::app::meta::command;
use tag_suite::app::meta::config;
use tag_suite::app::meta::config::CommandAction;
use tag_suite::app::meta::{
    Action, ApiAction, Command, Configuration, Convention, Error, FieldReport, TagAction, Template,
};
use tag_suite::expression::Expansions;
use tag_suite::util::table::VecMap;

fn texts(list: &[&str]) -> Vec<String> {
    list.iter().map(|s| s.to_string()).collect()
}

fn command(query: Option<&str>, filter: Option<&str>, actions: &[&[&str]]) -> config::Command {
    config::Command {
        query: query.map(|s| s.to_string()),
        filter: filter.map(|s| s.to_string()),
        pipe: None,
        actions: actions.iter().map(|a| texts(a)).collect(),
    }
}

fn dictionary(list: &[(&str, &str)]) -> VecMap<String, String> {
    let mut m: VecMap<String, String> = VecMap::new();
    for (k, v) in list {
        m.insert(k.to_string(), v.to_string());
    }
    m
}

fn expansions(list: &[(&str, &str)]) -> Expansions {
    Expansions::from_map(("{{", "}}"), dictionary(list))
}

/// The files on a disk: the value of the attribute, by path.
type Disk = BTreeMap<String, Vec<u8>>;

/// The files of an index with their tags, by id.
fn rows(disk: &Disk) -> (Vec<(i64, String, i64)>, Vec<(i64, String)>, Vec<(i64, i64)>) {
    let mut files = Vec::new();
    let mut tags: Vec<(i64, String)> = Vec::new();
    let mut pairs = Vec::new();
    for (i, (path, value)) in disk.iter().enumerate() {
        let fid = i as i64 + 1;
        files.push((fid, path.clone(), 0));
        for name in String::from_utf8(value.clone()).unwrap().split(',') {
            let tid = match tags.iter().find(|t| t.1 == name) {
                Some(t) => t.0,
                None => {
                    tags.push((100 + tags.len() as i64, name.to_string()));
                    tags.last().unwrap().0
                }
            };
            pairs.push((fid, tid));
        }
    }
    (files, tags, pairs)
}

/// The results of the files of the disk that have the tag `with`.
fn select(disk: &Disk, pipeline: &Pipeline, forcings: Forcings, with: &str) -> Results {
    let (files, tags, pairs) = rows(disk);
    let tid = tags.iter().find(|t| t.1 == with).map(|t| t.0);
    let chosen: Vec<i64> =
        pairs.iter().filter(|p| Some(p.1) == tid).map(|p| p.0).collect();
    let mut query = Query::new(pipeline, forcings);
    while !query.is_done() {
        let event = match query.request().unwrap() {
            Request::Rows(_) => {
                Event::Rows(pairs.iter().filter(|p| chosen.contains(&p.0)).cloned().collect())
            }
            Request::Columns { fids, tids } => Event::Columns(
                files.iter().filter(|f| fids.contains(&f.0)).cloned().collect(),
                tags.iter().filter(|t| tids.contains(&t.0)).cloned().collect(),
            ),
            Request::Nothing => Event::Nothing,
            _ => panic!("no shell here"),
        };
        query = query.execute(event).ok().unwrap();
    }
    query.results().unwrap()
}

/// Reads the tags of the files that an action is to go over.
fn attributes(disk: &Disk, action: &Action, results: &Results) -> Vec<File> {
    let paths: Vec<String> = match action {
        Action::Tag(_) => results.file_iter().unwrap().into_iter().map(|f| f.path).collect(),
        Action::Api(_) => {
            results.file_view_iter().unwrap().iter().map(|f| f.path().to_string()).collect()
        }
    };
    paths.into_iter().map(|p| File::open(p.clone(), 0, disk.get(&p).cloned()).unwrap()).collect()
}

/// Does to the disk what an action asks for; gives back the links made and
/// removed.
fn perform(disk: &mut Disk, effects: Vec<Effect>) -> Vec<String> {
    let mut links = Vec::new();
    for e in effects {
        match e {
            Effect::Store { path, store } => match store {
                Store::Write(bytes) => {
                    disk.insert(path, bytes);
                }
                Store::Remove => {
                    disk.insert(path, Vec::new());
                }
                Store::Keep => {}
            },
            Effect::Link { source, link } => links.push(format!("{} <- {}", source, link)),
            Effect::Unlink { link } => links.push(format!("rm {}", link)),
        }
    }
    links
}

fn disk(list: &[(&str, &str)]) -> Disk {
    list.iter().map(|(p, v)| (p.to_string(), v.as_bytes().to_vec())).collect()
}

fn value(disk: &Disk, path: &str) -> String {
    String::from_utf8(disk[path].clone()).unwrap()
}

#[test]
fn a_convention_is_enforced_on_the_files_that_match() {
    let config = config::Config {
        dictionary: None,
        templates: None,
        conventions: Some(vec![config::Convention {
            comment: Some("legacy is current now".to_string()),
            instances: None,
            commands: Some(vec![command(
                Some("=[legacy]"),
                None,
                &[&["del", "legacy"], &["add", "current"]],
            )]),
        }]),
    };
    let configuration = Configuration::configure(config).unwrap();
    assert_eq!(configuration.conventions.len(), 1);
    let convention = &configuration.conventions[0];
    assert_eq!(convention.comment(), &Some("legacy is current now".to_string()));
    let mut files = disk(&[
        ("/d/a", "legacy,tdb::api::Entity"),
        ("/d/b", "other,tdb::api::Entity"),
        ("/d/c", "current,legacy,tdb::api::Entity"),
    ]);
    let mut field = FieldReport::new(convention);
    for cmd in convention.commands() {
        let results = select(&files, cmd.pipeline(), cmd.forcings(), "legacy");
        let mut report = command::Report::new(cmd);
        for action in cmd.actions() {
            let read = attributes(&files, action, &results);
            let outcome = action.run(&results, read, true).unwrap();
            assert!(outcome.error.is_none());
            assert!(outcome.report.forgets().is_empty());
            perform(&mut files, outcome.effects);
            report.add_report(outcome.report);
        }
        let summary = report.summarize();
        assert_eq!(summary.actions.len(), 2);
        assert_eq!(summary.actions[0].action, "del(legacy)");
        assert_eq!(summary.actions[1].action, "add(current)");
        assert_eq!(summary.actions[0].files, vec!["/d/a", "/d/c"]);
        assert_eq!(summary.actions[0].updates, vec!["/d/a", "/d/c"]);
        assert_eq!(summary.actions[1].files, vec!["/d/a", "/d/c"]);
        assert_eq!(summary.actions[1].updates, vec!["/d/a"]);
        field.add_summary(summary);
    }
    assert_eq!(value(&files, "/d/a"), "current,tdb::api::Entity");
    assert_eq!(value(&files, "/d/b"), "other,tdb::api::Entity");
    assert_eq!(value(&files, "/d/c"), "current,tdb::api::Entity");
    assert_eq!(field.format(), "del(legacy)\nadd(current)\n");
}

#[test]
fn without_commit_nothing_is_written() {
    let files = disk(&[("/d/a", "legacy,tdb::api::Entity")]);
    let pipeline = Pipeline::from_strings(Some("=[legacy]".to_string()), None, None).unwrap();
    let action = Action::parse(texts(&["add", "x", "y"])).unwrap();
    let results = select(&files, &pipeline, action.forcings(), "legacy");
    let read = attributes(&files, &action, &results);
    let outcome = action.run(&results, read, false).unwrap();
    assert!(outcome.effects.is_empty());
    assert!(outcome.error.is_none());
    assert_eq!(outcome.report.updates(), vec!["/d/a"]);
    assert_eq!(outcome.files.len(), 1);
    assert!(outcome.files[0].has("x") && outcome.files[0].has("y"));
    assert!(outcome.files[0].is_dirty());
}

#[test]
fn an_invalid_tag_ends_the_run() {
    let files = disk(&[("/d/a", "t,tdb::api::Entity"), ("/d/b", "t,tdb::api::Entity")]);
    let pipeline = Pipeline::from_strings(Some("=[t]".to_string()), None, None).unwrap();
    let action = Action::Tag(TagAction::Add(texts(&["ok", "not,ok"])));
    let results = select(&files, &pipeline, action.forcings(), "t");
    let read = attributes(&files, &action, &results);
    let outcome = action.run(&results, read, true).unwrap();
    assert_eq!(
        outcome.error,
        Some(tag_suite::util::error::Error::Attr(tag_suite::app::attr::Error::InvalidTag {
            tag: "not,ok".to_string()
        }))
    );
    assert!(outcome.effects.is_empty());
    assert!(outcome.report.updates().is_empty());
    assert_eq!(outcome.report.summarize().files, vec!["/d/a"]);
}

#[test]
fn merging_renames_a_tag() {
    let mut files = disk(&[("/d/a", "old,tdb::api::Entity"), ("/d/b", "t,tdb::api::Entity")]);
    let pipeline = Pipeline::from_strings(None, None, None).unwrap();
    let action = Action::from_command_action(&CommandAction::Merge(
        "old".to_string(),
        "new".to_string(),
    ));
    let results = select(&files, &pipeline, action.forcings(), "tdb::api::Entity");
    let read = attributes(&files, &action, &results);
    let outcome = action.run(&results, read, true).unwrap();
    assert_eq!(outcome.report.updates(), vec!["/d/a"]);
    assert_eq!(
        outcome.report.followup(true),
        Some(tag_suite::app::meta::action::Followup {
            forget: Vec::new(),
            update: vec!["/d/a".to_string()]
        })
    );
    assert_eq!(outcome.report.summarize().files, vec!["/d/a", "/d/b"]);
    perform(&mut files, outcome.effects);
    assert_eq!(value(&files, "/d/a"), "new,tdb::api::Entity");
    assert_eq!(value(&files, "/d/b"), "t,tdb::api::Entity");
}

#[test]
fn links_are_made_only_on_commit() {
    let files = disk(&[("/d/a", "t,tdb::api::Entity")]);
    let pipeline = Pipeline::from_strings(None, None, None).unwrap();
    let action = Action::parse(texts(&["link", "/links", "/more/"])).unwrap();
    let results = select(&files, &pipeline, action.forcings(), "t");
    let outcome = action.run(&results, attributes(&files, &action, &results), false).unwrap();
    assert!(outcome.effects.is_empty());
    let outcome = action.run(&results, attributes(&files, &action, &results), true).unwrap();
    let name = format!("{:x}-a", md5::compute("/d"));
    let mut none = Disk::new();
    assert_eq!(
        perform(&mut none, outcome.effects),
        vec![format!("/d/a <- /links/{}", name), format!("/d/a <- /more/{}", name)]
    );
    assert!(outcome.report.updates().is_empty());
    let action = Action::parse(texts(&["unlink", "/links"])).unwrap();
    let outcome = action.run(&results, attributes(&files, &action, &results), true).unwrap();
    assert_eq!(perform(&mut none, outcome.effects), vec![format!("rm /links/{}", name)]);
}

#[test]
fn files_are_reported_and_forgotten() {
    let files = disk(&[("/d/a", "t,tdb::api::Entity"), ("/d/b", "t,tdb::api::Entity")]);
    let pipeline = Pipeline::from_strings(None, None, None).unwrap();
    let action = Action::Api(ApiAction::Report("look".to_string()));
    assert!(action.forcings().has_mapped());
    let results = select(&files, &pipeline, action.forcings(), "t");
    let outcome = action.run(&results, attributes(&files, &action, &results), true).unwrap();
    assert!(outcome.effects.is_empty());
    let summary = outcome.report.summarize();
    assert_eq!(summary.action, "report(look)");
    assert_eq!(summary.reports, vec!["look -> /d/a", "look -> /d/b"]);
    assert_eq!(summary.format(), "report(look)\nlook -> /d/a\nlook -> /d/b");
    let action = Action::Api(ApiAction::Forget);
    let outcome = action.run(&results, attributes(&files, &action, &results), true).unwrap();
    assert_eq!(outcome.report.forgets(), vec![1, 2]);
    assert_eq!(outcome.report.followup(false), None);
    assert_eq!(
        outcome.report.followup(true),
        Some(tag_suite::app::meta::action::Followup { forget: vec![1, 2], update: Vec::new() })
    );
    assert_eq!(outcome.report.summarize().forgets, vec!["/d/a", "/d/b"]);
    assert!(outcome.report.updates().is_empty());
    assert!(outcome.effects.is_empty());
}

#[test]
fn the_tags_of_the_index_are_written_to_the_files() {
    let index = disk(&[("/d/a", "t,u,tdb::api::Entity")]);
    let mut files = disk(&[("/d/a", "stale,tdb::api::Entity")]);
    let pipeline = Pipeline::from_strings(None, None, None).unwrap();
    let action = Action::Api(ApiAction::Emit);
    let results = select(&index, &pipeline, action.forcings(), "t");
    let outcome = action.run(&results, attributes(&files, &action, &results), true).unwrap();
    assert_eq!(outcome.report.updates(), vec!["/d/a"]);
    perform(&mut files, outcome.effects);
    assert_eq!(value(&files, "/d/a"), "t,tdb::api::Entity,u");
}

#[test]
fn an_action_of_the_library_needs_views() {
    let files = disk(&[("/d/a", "t,tdb::api::Entity")]);
    let pipeline = Pipeline::from_strings(None, None, None).unwrap();
    let results = select(&files, &pipeline, Forcings::new(), "t");
    let action = Action::Api(ApiAction::Forget);
    assert!(action.run(&results, Vec::new(), true).is_err());
}

#[test]
fn macros_are_expanded_in_commands() {
    let e = expansions(&[("old", "=[legacy]"), ("new", "current")]);
    let c = Command::configure(
        command(Some("{{old}} & =[x]"), Some("?[tags.len > 1]"), &[&["add", "{{new}}"], &["emit"]]),
        &e,
    )
    .unwrap();
    assert_eq!(c.query().as_ref().unwrap().as_str(), "(=[legacy] & =[x])");
    assert_eq!(c.filter().as_ref().unwrap().as_str(), "(?[tags.len > 1])");
    assert_eq!(c.pipe(), &None);
    assert_eq!(
        c.actions(),
        &vec![Action::Tag(TagAction::Add(texts(&["current"]))), Action::Api(ApiAction::Emit)]
    );
    assert!(c.forcings().has_mapped());
    assert!(c.pipeline().forcings().has_filtered());
    let plain = Command::configure(command(None, None, &[&["del", "x"]]), &e).unwrap();
    assert!(plain.forcings().has_none());
    assert!(plain.query().is_none());
}

#[test]
fn a_command_that_cannot_be_configured_is_an_error() {
    let e = expansions(&[]);
    let r = Command::configure(command(Some("{{nope}}"), None, &[]), &e);
    assert_eq!(
        r.err(),
        Some(tag_suite::util::error::Error::Expression(
            tag_suite::expression::Error::UnknownExpansion { key: "nope".to_string() }
        ))
    );
    let r = Command::configure(command(None, None, &[&["shout", "x"]]), &e);
    assert_eq!(
        r.err(),
        Some(tag_suite::util::error::Error::Meta(Error::UnknownAction {
            action: "shout".to_string()
        }))
    );
    let r = Command::configure(command(Some("=[a] &"), None, &[]), &e);
    assert!(matches!(r.err(), Some(tag_suite::util::error::Error::Expression(_))));
    let r = Command::configure(command(None, Some("()"), &[]), &e);
    assert!(matches!(r.err(), Some(tag_suite::util::error::Error::Expression(_))));
}

#[test]
fn a_template_is_instantiated_with_its_arguments() {
    let t = Template::configure(
        "rename".to_string(),
        config::Template {
            parameters: texts(&["from", "to"]),
            commands: vec![command(
                Some("=[{{from}}]"),
                None,
                &[&["merge", "{{from}}", "{{to}}"], &["report", "{{note}}"]],
            )],
        },
    );
    assert_eq!(t.name(), "rename");
    assert_eq!(t.commands().len(), 1);
    let e = expansions(&[("note", "renamed"), ("to", "shadowed")]);
    let commands = t.instantiate(&texts(&["a", "b"]), &e).unwrap();
    assert_eq!(commands.len(), 1);
    assert_eq!(commands[0].query().as_ref().unwrap().as_str(), "(=[a])");
    assert_eq!(
        commands[0].actions(),
        &vec![
            Action::Tag(TagAction::Merge("a".to_string(), "shadowed".to_string())),
            Action::Api(ApiAction::Report("renamed".to_string())),
        ]
    );
    let p = t.parameter_expansions(&texts(&["a"]));
    assert_eq!(p.expand("{{from}}".to_string()), Ok("a".to_string()));
    assert!(p.expand("{{to}}".to_string()).is_err());
    assert!(t.instantiate(&texts(&["a"]), &expansions(&[])).is_err());
}

#[test]
fn a_convention_takes_its_commands_from_templates_and_from_itself() {
    let mut templates: VecMap<String, config::Template> = VecMap::new();
    templates.insert(
        "tagged".to_string(),
        config::Template {
            parameters: texts(&["tag"]),
            commands: vec![command(Some("=[{{tag}}]"), None, &[&["forget"]])],
        },
    );
    let config = config::Config {
        dictionary: Some(dictionary(&[("q", "=[x]")])),
        templates: Some(templates),
        conventions: Some(vec![config::Convention {
            comment: None,
            instances: Some(vec![
                config::Instance { name: "tagged".to_string(), args: texts(&["one"]) },
                config::Instance { name: "tagged".to_string(), args: texts(&["two"]) },
            ]),
            commands: Some(vec![
                command(Some("{{q}}"), None, &[&["emit"]]),
                command(Some("{{unknown}}"), None, &[&["emit"]]),
                command(Some("=[y]"), None, &[&["add"]]),
            ]),
        }]),
    };
    let c = Configuration::configure(config).unwrap();
    assert_eq!(c.templates.len(), 1);
    assert_eq!(c.expand("{{q}}".to_string()), Ok("=[x]".to_string()));
    assert_eq!(c.expansions().expand("a".to_string()), Ok("a".to_string()));
    let queries: Vec<&str> = c.conventions[0]
        .commands()
        .iter()
        .map(|c| c.query().as_ref().unwrap().as_str())
        .collect();
    assert_eq!(queries, vec!["(=[one])", "(=[two])", "(=[x])"]);
}

#[test]
fn an_unknown_template_is_an_error() {
    let config = config::Config {
        dictionary: None,
        templates: None,
        conventions: Some(vec![config::Convention {
            comment: None,
            instances: Some(vec![config::Instance { name: "nope".to_string(), args: Vec::new() }]),
            commands: None,
        }]),
    };
    assert_eq!(
        Configuration::configure(config).err(),
        Some(tag_suite::util::error::Error::Meta(Error::UnknownTemplate {
            template: "nope".to_string()
        }))
    );
}

#[test]
fn an_empty_configuration_has_nothing() {
    let c = Configuration::configure(config::Config {
        dictionary: None,
        templates: None,
        conventions: None,
    })
    .unwrap();
    assert_eq!(c.templates.len(), 0);
    assert_eq!(c.conventions.len(), 0);
    let mut c = c;
    c.add_convention(Convention::new().with_comment("x".to_string()));
    c.add_template(Template::configure(
        "t".to_string(),
        config::Template { parameters: Vec::new(), commands: Vec::new() },
    ));
    assert_eq!(c.conventions.len(), 1);
    assert!(c.templates.contains_key(&"t".to_string()));
    assert_eq!(c.conventions[0].comment(), &Some("x".to_string()));
}

#[test]
fn a_convention_of_one_action() {
    let pipeline = Pipeline::from_strings(Some("=[a]".to_string()), None, None).unwrap();
    let c = Convention::from_command_action(pipeline, &CommandAction::Forget);
    assert_eq!(c.commands().len(), 1);
    assert_eq!(c.commands()[0].actions(), &vec![Action::Api(ApiAction::Forget)]);
    assert_eq!(c.comment(), &None);
    let pipeline = Pipeline::from_strings(None, None, None).unwrap();
    let one = Command::from_command_action(pipeline, &CommandAction::Add(texts(&["x"])));
    let c = Convention::from_commands(vec![one]);
    assert_eq!(c.commands().len(), 1);
}

#[test]
fn the_texts_of_a_pipeline_are_built_and_expanded() {
    let p = config::Pipeline::new().with_query("{{q}}").with_filter("=[b]").with_pipe("{{q}}");
    assert_eq!(p.query, Some("{{q}}"));
    let o = config::Pipeline::from_options(Some("a"), None, Some("c"));
    assert_eq!((o.query, o.filter, o.pipe), (Some("a"), None, Some("c")));
    let buf = config::PipelineBuf::from_pipeline(&p);
    assert_eq!(buf.as_pipeline().filter, Some("=[b]"));
    let e = expansions(&[("q", "=[a]")]);
    let buf = buf.expand(&e).unwrap();
    assert_eq!(buf.query, Some("=[a]".to_string()));
    assert_eq!(buf.filter, Some("=[b]".to_string()));
    assert_eq!(buf.pipe, Some("{{q}}".to_string()));
    let bad = config::PipelineBuf { query: None, filter: Some("{{x}}".to_string()), pipe: None };
    assert!(bad.expand(&e).is_err());
    let c = config::PipelineBuf::from_config(command(Some("q"), Some("f"), &[]));
    assert_eq!((c.query, c.filter, c.pipe), (Some("q".to_string()), Some("f".to_string()), None));
    let pipe = Pipeline::from_pipeline(buf).unwrap();
    assert_eq!(pipe.get_pipe(), &Some("{{q}}".to_string()));
    assert_eq!(pipe.get_query().as_ref().unwrap().as_str(), "(=[a])");
    assert!(pipe.get_filter().is_some());
}
