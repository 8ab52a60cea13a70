use tag_suite::app::meta::action::{ADD, DEL, EMIT, FORGET, LINK, MERGE, REPORT, UNLINK};
use tag_suite::app::meta::config::CommandAction;
use tag_suite::app::meta::{Action, ApiAction, Error, TagAction};

#[test]
fn check_parse_action_add() {
    let tokens = vec![ADD.to_string(), "Test::Test".to_string()];
    let action = Action::parse(tokens).unwrap();
    match action {
        Action::Tag(TagAction::Add(_)) => {}
        _ => panic!("wrong action"),
    }
}

#[test]
fn check_parse_action_del() {
    let tokens = vec![DEL.to_string(), "Test::Test".to_string()];
    let action = Action::parse(tokens).unwrap();
    match action {
        Action::Tag(TagAction::Del(_)) => {}
        _ => panic!("wrong action"),
    }
}

#[test]
fn check_parse_action_merge() {
    let tokens = vec![MERGE.to_string(), "Test::A".to_string(), "Test::B".to_string()];
    let action = Action::parse(tokens).unwrap();
    match action {
        Action::Tag(TagAction::Merge(_, _)) => {}
        _ => panic!("wrong action"),
    }
}

#[test]
fn check_parse_action_link() {
    let tokens = vec![LINK.to_string(), "a/directory".to_string()];
    let action = Action::parse(tokens).unwrap();
    match action {
        Action::Tag(TagAction::Link(_)) => {}
        _ => panic!("wrong action"),
    }
}

#[test]
fn check_parse_action_unlink() {
    let tokens = vec![UNLINK.to_string(), "a/directory".to_string()];
    let action = Action::parse(tokens).unwrap();
    match action {
        Action::Tag(TagAction::Unlink(_)) => {}
        _ => panic!("wrong action"),
    }
}

#[test]
fn check_parse_action_emit() {
    let tokens = vec![EMIT.to_string()];
    let action = Action::parse(tokens).unwrap();
    match action {
        Action::Api(ApiAction::Emit) => {}
        _ => panic!("wrong action"),
    }
}

#[test]
fn check_parse_action_forget() {
    let tokens = vec![FORGET.to_string()];
    let action = Action::parse(tokens).unwrap();
    match action {
        Action::Api(ApiAction::Forget) => {}
        _ => panic!("wrong action"),
    }
}

#[test]
fn check_parse_action_report() {
    let tokens = vec![REPORT.to_string(), "Stuff".to_string()];
    let action = Action::parse(tokens).unwrap();
    match action {
        Action::Api(ApiAction::Report(_)) => {}
        _ => panic!("wrong action"),
    }
}

#[test]
#[should_panic]
fn check_parse_action_unknown() {
    let tokens = vec!["unknown".to_string()];
    let action = Action::parse(tokens).unwrap();
    match action {
        Action::Tag(TagAction::Add(_)) => {}
        _ => panic!("wrong action"),
    }
}

fn strings(list: &[&str]) -> Vec<String> {
    list.iter().map(|s| s.to_string()).collect()
}

#[test]
fn parsing_keeps_the_arguments_in_their_order() {
    assert_eq!(
        Action::parse(strings(&["add", "a", "b", "c"])),
        Ok(Action::Tag(TagAction::Add(strings(&["a", "b", "c"]))))
    );
    assert_eq!(
        Action::parse(strings(&["merge", "old", "new"])),
        Ok(Action::Tag(TagAction::Merge("old".to_string(), "new".to_string())))
    );
    assert_eq!(
        Action::parse(strings(&["report", "msg"])),
        Ok(Action::Api(ApiAction::Report("msg".to_string())))
    );
}

#[test]
fn parsing_refuses_what_is_no_action() {
    assert_eq!(
        Action::parse(strings(&["unknown"])),
        Err(Error::UnknownAction { action: "unknown".to_string() })
    );
    assert_eq!(
        Action::parse(strings(&[])),
        Err(Error::ConfigurationError { message: "unexpected end of input".to_string() })
    );
    assert_eq!(
        Action::parse(strings(&["add"])),
        Err(Error::ConfigurationError { message: "expected one or more arguments".to_string() })
    );
    assert_eq!(
        Action::parse(strings(&["merge", "a"])),
        Err(Error::ConfigurationError { message: "unexpected end of input".to_string() })
    );
    assert_eq!(
        Action::parse(strings(&["merge", "a", "b", "c"])),
        Err(Error::ConfigurationError { message: "trailing tokens in action".to_string() })
    );
    assert_eq!(
        Action::parse(strings(&["emit", "x"])),
        Err(Error::ConfigurationError { message: "trailing tokens in action".to_string() })
    );
    assert_eq!(
        Action::parse(strings(&["report"])),
        Err(Error::ConfigurationError { message: "unexpected end of input".to_string() })
    );
}

#[test]
fn actions_are_written_as_a_verb_with_arguments() {
    assert_eq!(Action::Tag(TagAction::Add(strings(&["a", "b"]))).to_string(), "add(a, b)");
    assert_eq!(Action::Tag(TagAction::Del(strings(&["a"]))).to_string(), "del(a)");
    assert_eq!(Action::Tag(TagAction::Link(strings(&["d"]))).to_string(), "link(d)");
    assert_eq!(Action::Tag(TagAction::Unlink(strings(&["d", "e"]))).to_string(), "unlink(d, e)");
    assert_eq!(
        Action::Tag(TagAction::Merge("s".to_string(), "d".to_string())).to_string(),
        "merge(s, d)"
    );
    assert_eq!(Action::Api(ApiAction::Emit).to_string(), "emit");
    assert_eq!(Action::Api(ApiAction::Forget).to_string(), "forget");
    assert_eq!(Action::Api(ApiAction::Report("m".to_string())).to_string(), "report(m)");
}

#[test]
fn only_actions_of_the_library_force_maps() {
    assert!(Action::Tag(TagAction::Add(strings(&["a"]))).forcings().has_none());
    assert!(Action::Api(ApiAction::Emit).forcings().has_mapped());
    assert!(!Action::Api(ApiAction::Forget).forcings().has_filtered());
    assert!(!Action::Api(ApiAction::Forget).forcings().has_piped());
}

#[test]
fn command_line_actions_become_actions() {
    assert_eq!(
        Action::from_command_action(&CommandAction::Add(strings(&["a"]))),
        Action::Tag(TagAction::Add(strings(&["a"])))
    );
    assert_eq!(
        Action::from_command_action(&CommandAction::Merge("a".to_string(), "b".to_string())),
        Action::Tag(TagAction::Merge("a".to_string(), "b".to_string()))
    );
    assert_eq!(Action::from_command_action(&CommandAction::Emit), Action::Api(ApiAction::Emit));
    assert_eq!(
        Action::from_command_action(&CommandAction::Forget),
        Action::Api(ApiAction::Forget)
    );
    assert_eq!(
        Action::from_command_action(&CommandAction::Report("m".to_string())),
        Action::Api(ApiAction::Report("m".to_string()))
    );
}
