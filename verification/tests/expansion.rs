use tag_suite::expression::{Error, Expansions};

const DELIMITER: (&'static str, &'static str) = ("{{", "}}");

fn no<T: std::fmt::Debug>(result: Result<T, Error>) {
    match result {
        Ok(result) => panic!("expected error, found '{:?}'", result),
        _ => {}
    }
}

#[test]
fn check_normal_expansion() {
    let mut e = Expansions::new(DELIMITER);
    e.add("a".to_string(), "1".to_string());
    e.add("b".to_string(), "2".to_string());
    assert_eq!(e.expand("{{a}}".to_string()).unwrap(), "1".to_string());
    assert_eq!(e.expand("{{b}}".to_string()).unwrap(), "2".to_string());
}

#[test]
fn check_recursive_expansion() {
    let mut e = Expansions::new(DELIMITER);
    e.add("a".to_string(), "a{{b}}".to_string());
    e.add("b".to_string(), "b{{c}}".to_string());
    e.add("c".to_string(), "c".to_string());
    assert_eq!(e.expand("{{a}}".to_string()).unwrap(), "abc".to_string());
}

#[test]
fn check_wrapped_expansion() {
    let mut e = Expansions::new(DELIMITER).with_wrapper(("(", ")"));
    e.add("a".to_string(), "a{{b}}".to_string());
    e.add("b".to_string(), "b{{c}}".to_string());
    e.add("c".to_string(), "c".to_string());
    assert_eq!(e.expand("{{a}}".to_string()).unwrap(), "(a(b(c)))".to_string());
}

#[test]
#[should_panic(expected = "RecursionLimitReached")]
fn check_recursion_limit() {
    let mut e = Expansions::new(DELIMITER);
    e.add("a".to_string(), "{{b}}".to_string());
    e.add("b".to_string(), "{{a}}".to_string());
    no(e.expand("{{a}}".to_string()));
    no(e.expand("{{b}}".to_string()));
    e.expand("{{a}}".to_string()).unwrap();
}

#[test]
#[should_panic(expected = "InvalidIdentifier")]
fn check_invalid_identifier() {
    let e = Expansions::new(DELIMITER);
    no(e.expand("{{ white space }}".to_string()));
    no(e.expand("{{ question?mark }}".to_string()));
    no(e.expand("{{ amper&sand }}".to_string()));
    e.expand("{{}}".to_string()).unwrap();
}

#[test]
#[should_panic(expected = "UnknownExpansion")]
fn check_expansion_failure() {
    let mut e = Expansions::new(DELIMITER);
    e.add("a".to_string(), "1".to_string());
    e.add("b".to_string(), "2".to_string());
    e.expand("{{c}}".to_string()).unwrap();
}

#[test]
fn check_whitespace_in_identifier() {
    let mut e = Expansions::new(DELIMITER);
    e.add("a".to_string(), "1".to_string());
    assert_eq!(e.expand("{{a }}".to_string()).unwrap(), "1".to_string());
    assert_eq!(e.expand("{{ a}}".to_string()).unwrap(), "1".to_string());
    assert_eq!(e.expand("{{ a }}".to_string()).unwrap(), "1".to_string());
}

#[test]
fn a_text_without_references_expands_to_itself() {
    let mut e = Expansions::new(DELIMITER);
    assert_eq!(e.expand("=[t1] & =[t2]".to_string()).unwrap(), "=[t1] & =[t2]");
    assert_eq!(e.expand("{ {a} } }}{{".to_string()).unwrap(), "{ {a} } }}{{");
    assert_eq!(e.expand(String::new()).unwrap(), "");
    e.add("a".to_string(), "1".to_string());
    assert_eq!(e.expand("a {a} b".to_string()).unwrap(), "a {a} b");
}

#[test]
fn a_chain_of_macros_expands_to_its_end() {
    let mut e = Expansions::new(DELIMITER);
    e.add("a".to_string(), "{{b}}".to_string());
    e.add("b".to_string(), "{{c}}".to_string());
    e.add("c".to_string(), "c".to_string());
    assert_eq!(e.expand("{{a}}".to_string()).unwrap(), "c");
}

#[test]
fn the_leftmost_reference_is_resolved_first() {
    let mut e = Expansions::new(DELIMITER);
    e.add("a".to_string(), "1".to_string());
    assert_eq!(
        e.expand("{{a}}{{zz}}".to_string()).unwrap_err(),
        Error::UnknownExpansion { key: "zz".to_string() }
    );
    assert_eq!(
        e.expand("{{zz}}{{a}}".to_string()).unwrap_err(),
        Error::UnknownExpansion { key: "zz".to_string() }
    );
    assert_eq!(e.expand("x{{a}}y{{a}}z".to_string()).unwrap(), "x1y1z");
}

#[test]
fn the_errors_of_an_expansion_name_the_identifier() {
    let e = Expansions::new(DELIMITER);
    assert_eq!(
        e.expand("{{ white space }}".to_string()).unwrap_err(),
        Error::InvalidIdentifier { id: "white space".to_string() }
    );
    assert_eq!(
        e.expand("{{}}".to_string()).unwrap_err(),
        Error::InvalidIdentifier { id: String::new() }
    );
    assert_eq!(
        e.expand("{{   }}".to_string()).unwrap_err(),
        Error::InvalidIdentifier { id: String::new() }
    );
    assert_eq!(
        e.expand("{{c}}".to_string()).unwrap_err(),
        Error::UnknownExpansion { key: "c".to_string() }
    );
}

#[test]
fn mutual_recursion_reaches_the_limit() {
    let mut e = Expansions::new(DELIMITER);
    e.add("a".to_string(), "{{b}}".to_string());
    e.add("b".to_string(), "{{a}}".to_string());
    match e.expand("{{a}}".to_string()).unwrap_err() {
        Error::RecursionLimitReached { limit, .. } => assert_eq!(limit, 128),
        other => panic!("wrong error: {:?}", other),
    }
}

#[test]
fn the_limit_counts_substitutions() {
    let mut e = Expansions::new(DELIMITER).with_recursion_limit(3);
    e.add("a".to_string(), "x".to_string());
    assert_eq!(e.expand("{{a}}{{a}}".to_string()).unwrap(), "xx");
    assert_eq!(
        e.expand("{{a}}{{a}}{{a}}".to_string()).unwrap_err(),
        Error::RecursionLimitReached { key: "x".to_string(), limit: 3 }
    );
    let e = e.with_recursion_limit(1);
    assert_eq!(
        e.expand("{{a}}".to_string()).unwrap_err(),
        Error::RecursionLimitReached { key: "x".to_string(), limit: 1 }
    );
    assert_eq!(e.expand("plain".to_string()).unwrap(), "plain");
}

#[test]
fn extending_prefers_the_macros_that_are_added() {
    let mut a = Expansions::new(DELIMITER);
    a.add("x".to_string(), "old".to_string());
    a.add("y".to_string(), "kept".to_string());
    let mut b = Expansions::new(DELIMITER);
    b.add("x".to_string(), "new".to_string());
    let e = a.extend(b);
    assert_eq!(e.expand("{{x}} {{y}}".to_string()).unwrap(), "new kept");
}

#[test]
fn identifiers_are_letters_digits_dashes_and_underscores() {
    assert!(tag_suite::expression::expansion::validate_identifier("a-b_C9"));
    assert!(!tag_suite::expression::expansion::validate_identifier(""));
    assert!(!tag_suite::expression::expansion::validate_identifier("a b"));
    assert!(!tag_suite::expression::expansion::validate_identifier("a?"));
}

#[test]
fn a_reference_may_open_with_nothing() {
    let mut e = Expansions::new(("", "}}"));
    e.add("a".to_string(), "x".to_string());
    assert_eq!(e.expand("a}} b".to_string()), Ok("x b".to_string()));
    assert_eq!(e.expand("plain".to_string()), Ok("plain".to_string()));
}
