use tag_suite::app::meta::config::CommandAction;
use tag_suite::cli::{
    action, command, config, query, tag, Command, Config, ConventionCommand, Error, Format,
    Matches, QueryCommand, TagCommand,
};

/// The arguments of a command: values, flags and the command under it.
fn given(values: &[(&str, &[&str])], flags: &[&str], sub: Option<(&str, Matches)>) -> Matches {
    Matches {
        values: values
            .iter()
            .map(|(k, v)| (k.to_string(), v.iter().map(|s| s.to_string()).collect()))
            .collect(),
        flags: flags.iter().map(|s| s.to_string()).collect(),
        subcommand: sub.map(|(n, m)| (n.to_string(), Box::new(m))),
    }
}

fn none() -> Matches {
    given(&[], &[], None)
}

fn error(message: &str) -> Error {
    Error::ArgumentError { message: message.to_string() }
}

#[test]
fn arguments_are_looked_up_by_name() {
    let m = given(&[("TAGS", &["a", "b"]), ("MSG", &["x"]), ("EMPTY", &[])], &["commit"], None);
    assert_eq!(m.values_of("TAGS"), Some(&vec!["a".to_string(), "b".to_string()]));
    assert_eq!(m.values_of("NOPE"), None);
    assert_eq!(m.value_of("TAGS"), Some("a"));
    assert_eq!(m.value_of("MSG"), Some("x"));
    assert_eq!(m.value_of("EMPTY"), None);
    assert_eq!(m.value_of("commit"), None);
    assert!(m.is_present("commit"));
    assert!(m.is_present("TAGS"));
    assert!(!m.is_present("clean"));
    assert!(m.subcommand_matches("x").is_none());
    let m = given(&[], &[], Some(("x", given(&[], &["f"], None))));
    assert!(m.subcommand_matches("x").unwrap().is_present("f"));
    assert!(m.subcommand_matches("y").is_none());
}

#[test]
fn without_a_command_nothing_is_done() {
    assert!(matches!(command(&none()), Ok(Command::Nop)));
    let m = given(&[], &[], Some(("config", none())));
    assert!(matches!(command(&m), Ok(Command::Nop)));
}

#[test]
fn update_takes_paths_and_a_flag() {
    let m = given(&[], &[], Some(("update", given(&[("PATH", &["/a", "/b"])], &["clean"], None))));
    match command(&m) {
        Ok(Command::Update(paths, clean)) => {
            assert_eq!(paths, vec!["/a", "/b"]);
            assert!(clean);
        }
        other => panic!("{:?}", other),
    }
    let m = given(&[], &[], Some(("update", given(&[("PATH", &["/a"])], &[], None))));
    assert!(matches!(command(&m), Ok(Command::Update(_, false))));
    let m = given(&[], &[], Some(("update", none())));
    assert_eq!(command(&m).unwrap_err(), error("missing argument value"));
}

#[test]
fn tag_lists_unless_told_otherwise() {
    assert_eq!(tag(&none()), TagCommand::List);
    assert_eq!(tag(&given(&[], &[], Some(("list", none())))), TagCommand::List);
    assert_eq!(tag(&given(&[], &[], Some(("clean", none())))), TagCommand::Clean);
    assert_eq!(
        tag(&given(&[], &[], Some(("statistics", none())))),
        TagCommand::Statistics(None)
    );
    let m = given(&[], &[], Some(("statistics", given(&[("TAG", &["t"])], &[], None))));
    assert_eq!(tag(&m), TagCommand::Statistics(Some("t".to_string())));
    let m = given(&[], &[], Some(("tag", given(&[], &[], Some(("clean", none()))))));
    assert!(matches!(command(&m), Ok(Command::Tag(TagCommand::Clean))));
}

#[test]
fn query_prints_counts_serializes_or_maps() {
    let texts: &[(&str, &[&str])] = &[("QUERY", &["=[a]"]), ("filter", &["?[x > 1]"])];
    match query(&given(texts, &[], None)) {
        Ok(QueryCommand::Output(p)) => {
            assert_eq!(p.query, Some("=[a]".to_string()));
            assert_eq!(p.filter, Some("?[x > 1]".to_string()));
            assert_eq!(p.pipe, None);
        }
        other => panic!("{:?}", other),
    }
    match query(&given(&[("pipe", &["sort"])], &[], Some(("count", none())))) {
        Ok(QueryCommand::Count(p)) => {
            assert_eq!(p.query, None);
            assert_eq!(p.pipe, Some("sort".to_string()));
        }
        other => panic!("{:?}", other),
    }
    let serialize = given(&[("FORMAT", &["json"])], &[], None);
    match query(&given(texts, &[], Some(("serialize", serialize)))) {
        Ok(QueryCommand::Serialize(p, f)) => {
            assert_eq!(p.query, Some("=[a]".to_string()));
            assert_eq!(f, Some("json".to_string()));
        }
        other => panic!("{:?}", other),
    }
    assert!(matches!(
        query(&given(texts, &[], Some(("serialize", none())))),
        Ok(QueryCommand::Serialize(_, None))
    ));
    let add = given(&[("TAGS", &["t", "u"])], &[], None);
    let map = given(&[], &["commit"], Some(("add", add)));
    match query(&given(texts, &[], Some(("map", map)))) {
        Ok(QueryCommand::Apply(p, a, commit)) => {
            assert_eq!(p.query, Some("=[a]".to_string()));
            assert_eq!(a, CommandAction::Add(vec!["t".to_string(), "u".to_string()]));
            assert!(commit);
        }
        other => panic!("{:?}", other),
    }
    let m = given(&[], &[], Some(("query", given(texts, &[], Some(("map", none()))))));
    assert_eq!(command(&m).unwrap_err(), error("map requires a subcommand"));
    let m = given(&[], &[], Some(("query", given(texts, &[], None))));
    assert!(matches!(command(&m), Ok(Command::Query(QueryCommand::Output(_)))));
}

#[test]
fn each_action_has_its_command() {
    let one = |name: &str, m: Matches| action(&given(&[], &[], Some((name, m))));
    let list = |key: &str| given(&[(key, &["x", "y"])], &[], None);
    let both = vec!["x".to_string(), "y".to_string()];
    assert_eq!(one("add", list("TAGS")), Ok(CommandAction::Add(both.clone())));
    assert_eq!(one("del", list("TAGS")), Ok(CommandAction::Del(both.clone())));
    assert_eq!(one("link", list("DSTS")), Ok(CommandAction::Link(both.clone())));
    assert_eq!(one("unlink", list("DSTS")), Ok(CommandAction::Unlink(both.clone())));
    assert_eq!(one("forget", none()), Ok(CommandAction::Forget));
    assert_eq!(
        one("report", given(&[("MSG", &["look"])], &[], None)),
        Ok(CommandAction::Report("look".to_string()))
    );
    assert_eq!(
        one("merge", given(&[("SRC", &["a"]), ("DST", &["b"])], &[], None)),
        Ok(CommandAction::Merge("a".to_string(), "b".to_string()))
    );
    assert_eq!(one("add", none()), Err(error("missing argument value")));
    assert_eq!(one("link", none()), Err(error("missing argument value")));
    assert_eq!(one("report", none()), Err(error("missing argument value")));
    assert_eq!(
        one("merge", given(&[("SRC", &["a"])], &[], None)),
        Err(error("missing argument value"))
    );
    assert_eq!(one("emit", none()), Err(error("map requires a subcommand")));
    assert_eq!(one("shout", none()), Err(error("map requires a subcommand")));
    assert_eq!(action(&none()), Err(error("map requires a subcommand")));
}

#[test]
fn convention_needs_a_command() {
    let with = |m: Matches| command(&given(&[], &[], Some(("convention", m))));
    assert!(matches!(
        with(given(&[], &[], Some(("enforce", given(&[], &["commit"], None))))),
        Ok(Command::Convention(ConventionCommand::Enforce(true)))
    ));
    assert!(matches!(
        with(given(&[], &[], Some(("enforce", none())))),
        Ok(Command::Convention(ConventionCommand::Enforce(false)))
    ));
    assert!(matches!(
        with(given(&[], &[], Some(("record", none())))),
        Ok(Command::Convention(ConventionCommand::Record))
    ));
    assert_eq!(with(none()).unwrap_err(), error("convention requires a subcommand"));
}

#[test]
fn the_files_of_the_program_have_usual_places() {
    assert_eq!(
        config(&none(), "/data", "/conf"),
        Config {
            database: "/data/tag/db.sqlite".to_string(),
            config: "/conf/tag/config.yaml".to_string()
        }
    );
    let m = given(&[("database", &["/x.db"]), ("config", &["/y.yaml"])], &[], None);
    assert_eq!(
        config(&m, "/data", "/conf"),
        Config { database: "/x.db".to_string(), config: "/y.yaml".to_string() }
    );
}

#[test]
fn formats_have_names() {
    assert_eq!(tag_suite::cli::format(None), Ok(Format::Plain));
    assert_eq!(tag_suite::cli::format(Some("plain")), Ok(Format::Plain));
    assert_eq!(tag_suite::cli::format(Some("yaml")), Ok(Format::Yaml));
    assert_eq!(tag_suite::cli::format(Some("json")), Ok(Format::Json));
    assert_eq!(tag_suite::cli::format(Some("xml")), Err(error("xml")));
    assert_eq!(tag_suite::cli::format(Some("")), Err(error("")));
}
