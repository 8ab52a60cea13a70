use tag_suite::app::attr::api;
use tag_suite::app::attr::file::Store;
use tag_suite::app::attr::{Error, File, Tag, API_TAG, TAG_KEY, TAG_SEPERATOR};
use tag_suite::util::table::VecSet;

fn open(path: &str) -> File {
    File::open(path.to_string(), 0, None).unwrap()
}

fn reopen(path: &str, store: Store) -> File {
    match store {
        Store::Write(bytes) => File::open(path.to_string(), 0, Some(bytes)).unwrap(),
        Store::Remove => File::open(path.to_string(), 0, None).unwrap(),
        Store::Keep => panic!("nothing was written"),
    }
}

fn names(file: &File) -> Vec<String> {
    let mut v: Vec<String> = file.iter().iter().map(|t| t.as_str().to_string()).collect();
    v.sort();
    v
}

fn set(list: &[&str]) -> VecSet<Tag> {
    let mut s: VecSet<Tag> = VecSet::new();
    for t in list {
        s.insert(Tag::new(t).unwrap());
    }
    s
}

#[test]
fn check_add() {
    let mut f = open("test/files/a");
    assert_eq!(f.has("foo"), false);
    assert_eq!(f.has("bar"), false);
    assert_eq!(f.add("foo").unwrap(), true);
    assert_eq!(f.add("bar").unwrap(), true);
    assert_eq!(f.has("foo"), true);
    assert_eq!(f.has("bar"), true);
}

#[test]
fn check_del() {
    let mut f = open("test/files/a");
    assert_eq!(f.add("foo").unwrap(), true);
    assert_eq!(f.has("foo"), true);
    assert_eq!(f.del("foo"), true);
    assert_eq!(f.has("foo"), false);
}

#[test]
fn check_save() {
    let written;
    {
        let mut f = open("test/files/a");
        assert_eq!(f.add("foo").unwrap(), true);
        written = f.save();
        assert!(matches!(written, Store::Write(_)));
    }
    {
        let mut f = reopen("test/files/a", written);
        assert_eq!(f.del("foo"), true);
        assert!(matches!(f.save(), Store::Write(_)));
    }
}

#[test]
fn check_api_tag() {
    let f = open("test/files/b");
    let tags = f.iter();
    let api_tag = tags.iter().next().unwrap();
    assert_eq!(api_tag.as_str(), API_TAG);
}

#[test]
fn the_constants_are_those_of_the_attribute() {
    assert_eq!(TAG_KEY, "user.tag.list");
    assert_eq!(TAG_SEPERATOR, ",");
    assert_eq!(API_TAG, "tdb::api::Entity");
}

#[test]
fn open_add_save_reopen() {
    let mut f = open("/x/a");
    assert!(!f.is_dirty());
    assert_eq!(f.has("foo"), false);
    assert_eq!(f.add("foo"), Ok(true));
    assert_eq!(f.add("bar"), Ok(true));
    let store = f.save();
    assert_eq!(store, Store::Write(b"bar,foo,tdb::api::Entity".to_vec()));
    assert!(!f.is_dirty());
    assert_eq!(f.save(), Store::Keep);
    let g = reopen("/x/a", store);
    assert_eq!(names(&g), vec!["bar", "foo", "tdb::api::Entity"]);
    assert_eq!(names(&g), names(&f));
    assert!(!g.is_dirty());
}

#[test]
fn del_save_reopen() {
    let mut f = open("/x/a");
    f.add("foo").unwrap();
    f.add("bar").unwrap();
    let mut g = reopen("/x/a", f.save());
    assert_eq!(g.del("foo"), true);
    let store = g.save();
    assert_eq!(store, Store::Write(b"bar,tdb::api::Entity".to_vec()));
    let h = reopen("/x/a", store);
    assert_eq!(h.has("foo"), false);
    assert_eq!(h.has("bar"), true);
}

#[test]
fn adding_what_is_there_changes_nothing() {
    let mut f = open("/x/a");
    assert_eq!(f.add(API_TAG), Ok(false));
    assert!(!f.is_dirty());
    assert_eq!(f.add("foo"), Ok(true));
    assert_eq!(f.add("foo"), Ok(true));
    assert_eq!(f.iter().len(), 2);
}

#[test]
fn deleting_what_is_not_there_changes_nothing() {
    let mut f = open("/x/a");
    assert_eq!(f.del("foo"), false);
    assert!(!f.is_dirty());
    assert_eq!(f.iter().len(), 1);
}

#[test]
fn invalid_tags_are_refused() {
    let mut f = open("/x/a");
    for bad in ["", "a,b", "a{{b", "a}}b", "{{", ","] {
        assert_eq!(f.add(bad), Err(Error::InvalidTag { tag: bad.to_string() }));
        assert_eq!(Tag::new(bad).unwrap_err(), Error::InvalidTag { tag: bad.to_string() });
        assert_eq!(api::sanitize(bad), Err(Error::InvalidTag { tag: bad.to_string() }));
    }
    assert!(!f.is_dirty());
    for good in ["a", "a{b}", "{a}", "a b", "tdb::api::Entity", "Foo::Bar"] {
        assert_eq!(api::sanitize(good), Ok(good));
    }
}

#[test]
fn sanitizing_twice_is_sanitizing_once() {
    for t in ["a", "Foo::Bar", "a{b}c"] {
        let once = api::sanitize(t).unwrap();
        assert_eq!(api::sanitize(once), Ok(once));
    }
}

#[test]
fn merge_renames_a_tag_that_is_there() {
    let mut f = open("/x/a");
    f.add("old").unwrap();
    let mut f = reopen("/x/a", f.save());
    assert_eq!(f.merge("missing", "new"), Ok(false));
    assert_eq!(f.has("new"), false);
    assert_eq!(f.merge("old", "new"), Ok(true));
    assert_eq!(f.has("old"), false);
    assert_eq!(f.has("new"), true);
}

#[test]
fn merge_into_an_invalid_tag_fails() {
    let mut f = open("/x/a");
    f.add("old").unwrap();
    assert_eq!(f.merge("old", "a,b"), Err(Error::InvalidTag { tag: "a,b".to_string() }));
    assert_eq!(f.has("old"), false);
}

#[test]
fn set_tags_replaces_the_tags() {
    let mut f = open("/x/a");
    assert_eq!(f.set_tags(&set(&["x", "y"])), true);
    assert_eq!(names(&f), vec!["x", "y"]);
    f.purge();
    assert_eq!(f.iter().len(), 0);
    assert_eq!(f.set_tags(&set(&["z"])), false);
    assert_eq!(names(&f), vec!["z"]);
}

#[test]
fn a_file_without_tags_has_its_attribute_removed() {
    let mut f = open("/x/a");
    f.purge();
    assert_eq!(f.force_save(), Store::Remove);
    assert_eq!(api::write(&VecSet::new()), None);
}

#[test]
fn force_save_writes_what_is_clean() {
    let mut f = open("/x/a");
    assert_eq!(f.save(), Store::Keep);
    assert_eq!(f.force_save(), Store::Write(b"tdb::api::Entity".to_vec()));
}

#[test]
fn what_is_written_is_what_is_read() {
    for tags in [
        vec![API_TAG],
        vec![API_TAG, "a"],
        vec!["zeta", API_TAG, "alpha", "Beta", "tdb::other", "a b"],
    ] {
        let s = set(&tags);
        let bytes = api::write(&s).unwrap();
        let read = api::read(Some(bytes)).unwrap();
        assert_eq!(read.len(), s.len());
        for t in &tags {
            assert!(read.contains(&Tag::new(t).unwrap()));
        }
    }
}

#[test]
fn reading_adds_the_tag_that_every_file_has() {
    let read = api::read(Some(b"b,a".to_vec())).unwrap();
    assert_eq!(read.len(), 3);
    assert!(read.contains(&Tag::new(API_TAG).unwrap()));
    let read = api::read(None).unwrap();
    assert_eq!(read.len(), 1);
    assert_eq!(api::initial_tags().len(), 1);
}

#[test]
fn reading_refuses_invalid_values() {
    assert_eq!(
        api::read(Some(b"a,,b".to_vec())).unwrap_err(),
        Error::InvalidTag { tag: String::new() }
    );
    assert_eq!(
        api::read(Some(b"".to_vec())).unwrap_err(),
        Error::InvalidTag { tag: String::new() }
    );
    assert_eq!(
        api::read(Some(b"a,b{{c".to_vec())).unwrap_err(),
        Error::InvalidTag { tag: "b{{c".to_string() }
    );
    assert_eq!(
        api::read(Some(vec![0xff, 0xfe])).unwrap_err(),
        Error::InvalidTag { tag: String::new() }
    );
    assert_eq!(
        api::decode(vec![b'a', 0xc3], ",").unwrap_err(),
        Error::InvalidTag { tag: String::new() }
    );
}

#[test]
fn values_are_encoded_in_lexical_order() {
    assert_eq!(api::encode(&set(&["b", "a", "C"]), ","), b"C,a,b".to_vec());
    assert_eq!(api::encode(&set(&["ab", "a", "b"]), ";"), b"a;ab;b".to_vec());
    assert_eq!(api::encode(&set(&["é", "z"]), ","), "z,é".as_bytes().to_vec());
}

#[test]
fn the_separator_can_be_migrated() {
    let out = api::migrate_seperator(Some(b"b;a".to_vec()), ";", ",").unwrap();
    assert_eq!(out, Some(b"a,b,tdb::api::Entity".to_vec()));
    let out = api::migrate_seperator(None, ";", ",").unwrap();
    assert_eq!(out, Some(b"tdb::api::Entity".to_vec()));
}

#[test]
fn users_are_not_shown_the_tags_of_the_library() {
    assert_eq!(api::unghost("foo"), Some("foo"));
    assert_eq!(api::unghost("tdb::api::Entity"), None);
    assert_eq!(api::unghost("tdb::"), None);
    assert_eq!(api::unghost("tdb:"), Some("tdb:"));
    assert_eq!(api::format(&set(&["b", API_TAG, "a", "tdb::x"]), ","), "a,b");
    assert_eq!(api::format(&set(&[API_TAG]), ","), "");
    let mut f = open("/x/a");
    f.add("foo").unwrap();
    f.add("bar").unwrap();
    assert_eq!(f.format(), "/x/a bar,foo");
}

#[test]
fn a_file_knows_its_path_and_its_key() {
    let f = File::open("/home/u/a.txt".to_string(), 5, None).unwrap();
    assert_eq!(f.path(), "/home/u/a.txt");
    assert_eq!(f.path_str(), "/home/u/a.txt");
    assert_eq!(f.kind(), 5);
    assert_eq!(f.ident().path, "/home/u/a.txt");
    assert_eq!(f.ident().kind, 5);
    assert_eq!(f.file_name(), Some("a.txt".to_string()));
    assert_eq!(f.base_name(), Some("/home/u".to_string()));
    let m = f.mapping();
    assert_eq!(m.len(), 1);
    assert_eq!(m[0].0.path, "/home/u/a.txt");
    assert_eq!(m[0].1.name, API_TAG);
    assert_eq!(f.tags().len(), 1);
}

#[test]
fn the_link_of_a_file_is_named_by_the_digest_of_its_directory() {
    let f = open("/home/u/a.txt");
    assert_eq!(f.link_name(), "6bc3a03f14b5e74d4a4ed1c3d8a3835a-a.txt".replace("6bc3a03f14b5e74d4a4ed1c3d8a3835a", &digest("/home/u")));
    assert_eq!(f.link_name().len(), 32 + 1 + "a.txt".len());
    assert_eq!(f.link_path("/links"), format!("/links/{}", f.link_name()));
    assert_eq!(f.link_path("/links/"), format!("/links/{}", f.link_name()));
    assert_eq!(f.link_path(""), f.link_name());
    let g = open("/other/a.txt");
    assert_ne!(f.link_name(), g.link_name());
    let root = open("/");
    assert!(root.link_name().ends_with("-node::"));
    assert_eq!(root.link_name(), format!("{}-node::", digest("root::")));
}

fn digest(text: &str) -> String {
    format!("{:x}", md5::compute(text))
}

#[test]
fn the_digest_is_md5() {
    assert_eq!(digest(""), "d41d8cd98f00b204e9800998ecf8427e");
    let f = open("a.txt");
    assert_eq!(f.base_name(), Some(String::new()));
    assert_eq!(f.link_name(), "d41d8cd98f00b204e9800998ecf8427e-a.txt");
}

#[test]
fn tags_are_compared_by_their_names() {
    let a = Tag::new("foo").unwrap();
    let b = Tag::new("foo").unwrap();
    let c = Tag::new("bar").unwrap();
    assert_eq!(a, b);
    assert_ne!(a, c);
    assert_eq!(a.as_str(), "foo");
    assert_eq!(a.ident().name, "foo");
    let long = "a-tag-that-is-too-long-to-be-kept-in-line";
    assert_eq!(Tag::new(long).unwrap().as_str(), long);
}

#[test]
fn an_empty_separator_cuts_nothing() {
    assert_eq!(
        api::decode(b"a,b".to_vec(), "").unwrap_err(),
        Error::InvalidTag { tag: String::new() }
    );
    assert_eq!(api::read_with_sep(None, "").unwrap().len(), 1);
    assert!(api::migrate_seperator(Some(b"a".to_vec()), "", ",").is_err());
    let read = api::read_with_sep(Some(b"a::b".to_vec()), "::").unwrap();
    assert_eq!(read.len(), 3);
}
