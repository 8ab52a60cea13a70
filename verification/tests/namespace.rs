use tag_suite::expression::{Namespace, Namespec};

fn user(s: &str) -> Namespace {
    Namespace::User(s.to_string())
}

fn reserved(s: &str) -> Namespace {
    Namespace::Reserved(s.to_string())
}

#[test]
fn a_name_is_cut_at_the_separator() {
    assert_eq!(Namespec::parse("Foo::Bar"), Some(vec![user("Foo"), user("Bar")]));
    assert_eq!(Namespec::parse("::Foo"), Some(vec![Namespace::Root, user("Foo")]));
    assert_eq!(Namespec::parse("tag::Foo"), Some(vec![reserved("tag"), user("Foo")]));
    assert_eq!(Namespec::parse("path::a"), Some(vec![reserved("path"), user("a")]));
    assert_eq!(Namespec::parse("kind::file"), Some(vec![reserved("kind"), user("file")]));
    assert_eq!(Namespec::parse("tdb::api"), Some(vec![reserved("tdb"), user("api")]));
    assert_eq!(Namespec::parse(""), Some(vec![Namespace::Root]));
}

#[test]
fn only_the_first_segment_can_be_reserved() {
    assert_eq!(
        Namespec::parse("::tag::Foo"),
        Some(vec![Namespace::Root, user("tag"), user("Foo")])
    );
    assert_eq!(Namespec::parse("a::tag"), Some(vec![user("a"), user("tag")]));
}

#[test]
fn empty_segments_after_the_first_are_left_out() {
    assert_eq!(Namespec::parse("a::::b"), Some(vec![user("a"), user("b")]));
    assert_eq!(Namespec::parse("a::"), Some(vec![user("a")]));
    assert_eq!(Namespec::parse("a:::b"), Some(vec![user("a"), user(":b")]));
}

#[test]
fn a_name_is_written_with_the_separator() {
    assert_eq!(Namespec::new("Foo::Bar").to_string(), "Foo::Bar");
    assert_eq!(Namespec::new("::Foo").to_string(), "::Foo");
    assert_eq!(Namespec::new("a::::b").to_string(), "a::b");
    assert_eq!(Namespec::new("").to_string(), "");
}

#[test]
fn the_segments_can_be_asked_for() {
    let n = Namespec::new("::tag::a::b");
    assert_eq!(n.get_root(), &Namespace::Root);
    assert_eq!(n.get_reserved(), &user("tag"));
    assert_eq!(n.get_leaf(), &user("b"));
    assert_eq!(n.get_leaf().as_str(), "b");
    assert_eq!(n.get_root().as_str(), "");
}

#[test]
fn a_user_segment_gets_the_default_reserved_word() {
    let n = Namespec::new("Foo::Bar").canonicalize_with_default("tag");
    assert_eq!(n.to_string(), "::tag::Foo::Bar");
    assert_eq!(n.get_reserved(), &reserved("tag"));
}

#[test]
fn a_reserved_word_gets_only_the_root() {
    let n = Namespec::new("path::x").canonicalize_with_default("tag");
    assert_eq!(n.to_string(), "::path::x");
    let n = Namespec::new("kind::dir").canonicalize_with_default("tag");
    assert_eq!(n.to_string(), "::kind::dir");
}

#[test]
fn a_rooted_name_stays_as_it_is() {
    let n = Namespec::new("::path::x").canonicalize_with_default("tag");
    assert_eq!(n.to_string(), "::path::x");
}

#[test]
fn the_tagspace_is_what_follows_the_reserved_word() {
    let n = Namespec::new("Foo::Bar").canonicalize_with_default("tag");
    assert_eq!(n.to_tagspace().to_string(), "::Foo::Bar");
    let n = Namespec::new("tag").canonicalize_with_default("tag");
    assert_eq!(n.to_tagspace().to_string(), "");
}

#[test]
fn shorthands_are_written_out() {
    assert_eq!(Namespec::apply_shorthand_syntax(":foo:"), "%::foo::%");
    assert_eq!(Namespec::apply_shorthand_syntax(":foo"), "%::foo");
    assert_eq!(Namespec::apply_shorthand_syntax("foo:"), "foo::%");
    assert_eq!(Namespec::apply_shorthand_syntax("foo"), "foo");
    assert_eq!(Namespec::apply_shorthand_syntax("::foo::"), "::foo::");
    assert_eq!(Namespec::apply_shorthand_syntax(":"), ":");
    assert_eq!(Namespec::apply_shorthand_syntax(""), "");
    assert_eq!(Namespec::apply_shorthand_syntax("::"), "::");
    assert_eq!(Namespec::apply_shorthand_syntax(":a:b:"), "%::a:b::%");
}

#[test]
fn a_shorthand_expression_is_made_canonical() {
    let exp = Namespec::apply_shorthand_syntax(":foo:");
    let (canonical, tagspace) = Namespec::canonicalize_user_expression(&exp);
    assert_eq!(canonical.to_string(), "::tag::%::foo::%");
    assert_eq!(tagspace.to_string(), "::%::foo::%");
}

#[test]
fn a_user_expression_has_two_views() {
    let (canonical, tagspace) = Namespec::canonicalize_user_expression("Foo::Bar");
    assert_eq!(canonical.to_string(), "::tag::Foo::Bar");
    assert_eq!(canonical.get_reserved().as_str(), "tag");
    assert_eq!(tagspace.to_string(), "::Foo::Bar");
    let (canonical, tagspace) = Namespec::canonicalize_user_expression("path::/home/%");
    assert_eq!(canonical.get_reserved().as_str(), "path");
    assert_eq!(tagspace.to_string(), "::/home/%");
}

#[test]
fn an_expression_without_a_second_segment_has_no_canonical_form() {
    assert!(Namespec::try_canonicalize_user_expression("").is_none());
    assert!(Namespec::try_canonicalize_user_expression("::").is_none());
    assert!(Namespec::try_canonicalize_user_expression("a").is_some());
    assert!(Namespec::try_canonicalize_user_expression("tag").is_some());
}
