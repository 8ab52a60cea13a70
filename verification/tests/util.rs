use tag_suite::defaults;
use tag_suite::util::collections::{Diff, Error, ManyToMany, OneToOne};
use tag_suite::util::file::UnixFileType;
use tag_suite::util::math::{conjunction, disjunction};
use tag_suite::util::order::{le, sort_order, sort_order_by_number};
use tag_suite::util::profiler::{nanoseconds_to_human_time, Profiler, Timer, ROOT};
use tag_suite::util::sql;
use tag_suite::util::string;
use tag_suite::util::table::{VecMap, VecSet};

fn chars(s: &str) -> Vec<char> {
    s.chars().collect()
}

fn set(list: &[i64]) -> VecSet<i64> {
    let mut s: VecSet<i64> = VecSet::new();
    for x in list {
        s.insert(*x);
    }
    s
}

fn members(s: &VecSet<i64>) -> Vec<i64> {
    let mut v: Vec<i64> = (0..s.len()).map(|i| *s.get(i)).collect();
    v.sort();
    v
}

#[test]
fn a_set_holds_each_item_once() {
    let mut s: VecSet<i64> = VecSet::new();
    assert!(s.is_empty());
    assert_eq!(s.insert(3), true);
    assert_eq!(s.insert(3), false);
    assert_eq!(s.insert(4), true);
    assert_eq!(s.len(), 2);
    assert!(s.contains(&3));
    assert!(!s.contains(&5));
    assert_eq!(s.position(&4), Some(1));
    assert_eq!(s.position(&5), None);
    assert_eq!(s.remove(&3), true);
    assert_eq!(s.remove(&3), false);
    assert_eq!(members(&s), vec![4]);
    s.shrink_to_fit();
    assert_eq!(members(&s), vec![4]);
    s.clear();
    assert!(s.is_empty());
}

#[test]
fn sets_are_combined() {
    let a = set(&[1, 2, 3]);
    let b = set(&[2, 3, 4]);
    assert_eq!(members(&a.intersection(&b)), vec![2, 3]);
    assert_eq!(members(&a.difference(&b)), vec![1]);
    assert_eq!(members(&b.difference(&a)), vec![4]);
    let mut c = a.replica();
    c.extend(&b);
    assert_eq!(members(&c), vec![1, 2, 3, 4]);
    assert_eq!(members(&a), vec![1, 2, 3]);
}

#[test]
fn a_map_holds_one_value_for_a_key() {
    let mut m: VecMap<String, u64> = VecMap::with_capacity(2);
    assert_eq!(m.insert("a".to_string(), 1), true);
    assert_eq!(m.insert("b".to_string(), 2), true);
    assert_eq!(m.insert("a".to_string(), 3), false);
    assert_eq!(m.len(), 2);
    assert_eq!(m.get(&"a".to_string()), Some(&3));
    assert_eq!(m.get(&"c".to_string()), None);
    assert!(m.contains_key(&"b".to_string()));
    assert_eq!(m.key_at(0), "a");
    assert_eq!(m.value_at(1), &2);
    m.set_value_at(1, 5);
    assert_eq!(m.swap_value_at(1, 6), 5);
    assert_eq!(m.remove(&"a".to_string()), Some(3));
    assert_eq!(m.remove(&"a".to_string()), None);
    m.shrink_to_fit();
    assert_eq!(m.pop(), Some(("b".to_string(), 6)));
    assert_eq!(m.pop(), None);
}

#[test]
fn the_union_and_the_intersection_of_many_sets() {
    let sets = || vec![set(&[1, 2, 3]), set(&[2, 3, 4]), set(&[3, 4, 5])];
    assert_eq!(members(&conjunction(sets())), vec![1, 2, 3, 4, 5]);
    assert_eq!(members(&disjunction(sets())), vec![3]);
    assert_eq!(members(&conjunction(Vec::new())), Vec::<i64>::new());
    assert_eq!(members(&disjunction(Vec::new())), Vec::<i64>::new());
    assert_eq!(members(&disjunction(vec![set(&[7, 8])])), vec![7, 8]);
    assert_eq!(members(&disjunction(vec![set(&[7, 8]), set(&[])])), Vec::<i64>::new());
}

#[test]
fn a_relation_is_kept_in_both_directions() {
    let mut m: ManyToMany<i64, i64> = ManyToMany::new();
    assert_eq!(m.map(1, 10), (true, true));
    assert_eq!(m.map(1, 11), (false, true));
    assert_eq!(m.map(2, 10), (true, false));
    assert_eq!(m.map(1, 10), (false, false));
    assert_eq!(m.ls_len(), 2);
    assert_eq!(m.rs_len(), 2);
    assert_eq!(members(m.get_rs(&1).unwrap()), vec![10, 11]);
    assert_eq!(members(m.get_rs(&2).unwrap()), vec![10]);
    assert_eq!(members(m.get_ls(&10).unwrap()), vec![1, 2]);
    assert_eq!(members(m.get_ls(&11).unwrap()), vec![1]);
    assert_eq!(*m.left_at(0), 1);
    assert_eq!(*m.right_at(1), 11);
    m.shrink_to_fit();
    assert_eq!(members(m.get_ls(&10).unwrap()), vec![1, 2]);
}

#[test]
fn an_id_that_was_not_mapped_is_unknown() {
    let m: ManyToMany<i64, i64> = ManyToMany::with_capacity(4);
    assert_eq!(m.get_rs(&1).unwrap_err(), Error::UnknownId { id: String::new() });
    assert_eq!(m.get_ls(&1).unwrap_err(), Error::UnknownId { id: String::new() });
    let o: OneToOne<i64, i64> = OneToOne::new();
    assert!(o.by_uid(&1).is_err());
    assert!(o.by_alt(&1).is_err());
}

#[test]
fn a_pairing_is_kept_in_both_directions() {
    let mut o: OneToOne<i64, String> = OneToOne::with_capacity(2);
    o.map(1, "one".to_string());
    o.map(2, "two".to_string());
    assert_eq!(o.len(), 2);
    assert_eq!(o.by_uid(&2), Ok("two".to_string()));
    assert_eq!(o.by_alt(&"one".to_string()), Ok(1));
    assert_eq!(o.iter(), vec![(1, "one".to_string()), (2, "two".to_string())]);
    o.shrink_to_fit();
    assert_eq!(o.len(), 2);
}

#[test]
fn a_diff_gives_what_each_side_has_alone() {
    let mut d: Diff<i64> = Diff::new();
    for x in [1, 2, 3] {
        d.add_left(x);
    }
    for x in [2, 3, 4, 5] {
        d.add_right(x);
    }
    let (left_only, right_only) = d.diff();
    assert_eq!(members(&left_only), vec![1]);
    assert_eq!(members(&right_only), vec![4, 5]);
    let mut reached = set(&[1, 2, 3]).difference(&left_only);
    reached.extend(&right_only);
    assert_eq!(members(&reached), vec![2, 3, 4, 5]);
}

#[test]
fn a_diff_of_equal_sides_is_empty() {
    let mut d: Diff<i64> = Diff::with_capacity(3);
    d.ls().insert(1);
    d.rs().insert(1);
    d.shrink_to_fit();
    let (left_only, right_only) = d.diff();
    assert!(left_only.is_empty());
    assert!(right_only.is_empty());
}

#[test]
fn texts_are_ordered_by_their_characters() {
    assert!(le(&chars(""), &chars("a")));
    assert!(le(&chars("a"), &chars("a")));
    assert!(le(&chars("a"), &chars("ab")));
    assert!(!le(&chars("ab"), &chars("a")));
    assert!(le(&chars("B"), &chars("a")));
    assert!(!le(&chars("b"), &chars("a")));
}

#[test]
fn sorting_gives_the_places_in_rising_order() {
    let keys: Vec<Vec<char>> = ["b", "a", "c", "a"].iter().map(|s| chars(s)).collect();
    assert_eq!(sort_order(&keys), vec![1, 3, 0, 2]);
    assert_eq!(sort_order(&Vec::new()), Vec::<usize>::new());
    assert_eq!(sort_order_by_number(&vec![3, 1, 2, 1]), vec![1, 3, 2, 0]);
}

#[test]
fn the_kinds_of_files_have_numbers() {
    let kinds = [
        UnixFileType::File,
        UnixFileType::Fifo,
        UnixFileType::Dir,
        UnixFileType::CharDevice,
        UnixFileType::BlockDevice,
        UnixFileType::Symlink,
        UnixFileType::Socket,
    ];
    for (i, k) in kinds.iter().enumerate() {
        assert_eq!(k.to_i64(), i as i64);
        assert_eq!(UnixFileType::from_i64(i as i64), *k);
    }
}

#[test]
fn the_paths_of_the_defaults() {
    assert_eq!(defaults::HOME_NAME, "tag");
    assert_eq!(defaults::DATABASE_PATH, "db.sqlite");
    assert_eq!(defaults::CONFIG_NAME, "config.yaml");
    assert_eq!(defaults::config_home("/home/u/.config"), "/home/u/.config/tag");
    assert_eq!(defaults::config_path("/c", "config.yaml"), "/c/tag/config.yaml");
    assert_eq!(defaults::data_home("/d"), "/d/tag");
    assert_eq!(defaults::data_path("/d", "db.sqlite"), "/d/tag/db.sqlite");
    assert_eq!(defaults::test_home("x"), "test/x");
    assert_eq!(defaults::test_path("x", "db.sqlite"), "test/x/db.sqlite");
}

#[test]
fn nanoseconds_are_split_into_units() {
    assert_eq!(nanoseconds_to_human_time(0), (0, 0, 0, 0));
    assert_eq!(nanoseconds_to_human_time(1_002_003_004), (1, 2, 3, 4));
    assert_eq!(nanoseconds_to_human_time(999), (0, 0, 0, 999));
    assert_eq!(nanoseconds_to_human_time(61_000_000_000), (61, 0, 0, 0));
    assert_eq!(nanoseconds_to_human_time(-1_002_003_004), (-1, -2, -3, -4));
    assert_eq!(nanoseconds_to_human_time(-1), (0, 0, 0, -1));
    assert_eq!(
        nanoseconds_to_human_time(i64::MIN),
        (-9_223_372_036, -854, -775, -808)
    );
    assert_eq!(nanoseconds_to_human_time(i64::MAX), (9_223_372_036, 854, 775, 807));
}

#[test]
fn a_timer_measures_from_entry_to_exit() {
    let mut t = Timer::new();
    assert_eq!(t.enter(100), 100);
    assert_eq!(t.exit(250).nanoseconds(), 150);
    assert_eq!(t.set(5), 5);
    assert_eq!(t.exit(i64::MAX).nanoseconds(), i64::MAX - 5);
    t.set(-10);
    assert_eq!(t.exit(i64::MAX).nanoseconds(), i64::MAX);
}

#[test]
fn frames_are_tallied_under_the_frame_they_were_entered_from() {
    let mut p = Profiler::new();
    p.push("root", 0);
    p.push("a", 10);
    let a = p.pop(40);
    assert_eq!(a.name(), "a");
    assert_eq!(a.time(), 30);
    assert_eq!(a.parent(), ROOT);
    p.push("b", 50);
    p.push("c", 60);
    assert_eq!(p.pop(65).time(), 5);
    assert_eq!(p.pop(90).time(), 40);
    assert_eq!(p.pop(100).time(), 100);
    assert_eq!(p.lookup(1).name(), "a");
    let analysis = p.analysis();
    assert_eq!(analysis.total(), 100);
    let (frame, analyzed) = analysis.frame(ROOT);
    assert_eq!(frame.name(), "root");
    assert_eq!(analyzed.total(), 100);
    assert_eq!(analyzed.tally(), &vec![(1, 30), (2, 40)]);
    assert_eq!(analyzed.tally_up(), 70);
    let (frame, analyzed) = analysis.frame(2);
    assert_eq!(frame.name(), "b");
    assert_eq!(frame.index(), 2);
    assert_eq!(analyzed.tally(), &vec![(3, 5)]);
}

#[test]
fn texts_are_searched_cut_and_joined() {
    let s = chars("a::b::c");
    let sep = chars("::");
    assert_eq!(string::find_from(&s, &sep, 0), Some(1));
    assert_eq!(string::find_from(&s, &sep, 2), Some(4));
    assert_eq!(string::find_from(&s, &sep, 5), None);
    assert!(string::contains(&s, &chars("b::")));
    assert!(!string::contains(&s, &chars("d")));
    assert!(string::starts_with(&s, &chars("a:")));
    assert!(!string::starts_with(&s, &chars("b")));
    assert!(string::matches_at(&s, &chars("b"), 3));
    let parts = string::split_chars(&s, &sep);
    assert_eq!(parts, vec![chars("a"), chars("b"), chars("c")]);
    assert_eq!(string::join_chars(&parts, &chars("/")), chars("a/b/c"));
    assert_eq!(string::split_chars(&chars(""), &sep), vec![chars("")]);
    assert_eq!(string::split_chars(&chars("::"), &sep), vec![chars(""), chars("")]);
    assert_eq!(string::slice_of(&s, 3, 4), chars("b"));
    assert_eq!(string::from_chars(&s, 0, 3), "a::");
    assert_eq!(string::collect(&s), "a::b::c");
    assert_eq!(string::to_chars("xy"), chars("xy"));
    assert_eq!(string::replace_all(&s, &sep, &chars("-")), chars("a-b-c"));
    assert_eq!(string::replace_all(&chars("aaa"), &chars("aa"), &chars("b")), chars("ba"));
    assert!(string::same_text("ab", "ab"));
    assert!(!string::same_text("ab", "abc"));
    assert!(string::same_chars(&chars("ab"), &chars("ab")));
    let mut buf = chars("a");
    string::append(&mut buf, &chars("b"));
    string::append_str(&mut buf, "c");
    assert_eq!(buf, chars("abc"));
}

#[test]
fn numbers_are_written_in_decimal() {
    assert_eq!(string::to_decimal(0), chars("0"));
    assert_eq!(string::to_decimal(7), chars("7"));
    assert_eq!(string::to_decimal(1203), chars("1203"));
    assert_eq!(string::to_decimal(usize::MAX), chars(&usize::MAX.to_string()));
}

#[test]
fn characters_are_stripped_escaped_and_checked() {
    assert_eq!(string::strip_with(" \ta b\tc \n", |c| c.is_whitespace()), "a b\tc");
    assert_eq!(string::strip_with("abc", |c| c == 'x'), "abc");
    assert_eq!(string::strip_with("xxx", |c| c == 'x'), "");
    assert_eq!(string::strip_with("", |c| c == 'x'), "");
    assert_eq!(string::strip_with("xax", |c| c == 'x'), "a");
    assert_eq!(string::escape_all("{{", '\\'), "\\{\\{");
    assert_eq!(string::escape_all("", '\\'), "");
    assert!(string::check_contents_with("abc", |c| c.is_alphabetic()));
    assert!(!string::check_contents_with("ab1", |c| c.is_alphabetic()));
    assert!(string::check_contents_with("", |c| c.is_alphabetic()));
    assert!(string::is_whitespace(' '));
    assert!(string::is_whitespace('\n'));
    assert!(string::is_whitespace('\u{3000}'));
    assert!(!string::is_whitespace('a'));
    for c in ['\u{9}', '\u{d}', '\u{85}', '\u{a0}', '\u{1680}', '\u{2003}', '\u{2028}', '\u{202f}', '\u{205f}', '\u{200b}', '_'] {
        assert_eq!(string::is_whitespace(c), c.is_whitespace());
    }
}

#[test]
fn conditions_are_written_for_the_store() {
    assert_eq!(sql::sql_true(), "TRUE");
    assert_eq!(sql::sql_false(), "FALSE");
    assert_eq!(sql::sql_text("::"), "'::'");
    assert_eq!(sql::with_rowid(42), "OID = 42");
    assert_eq!(sql::with_rowid(-7), "OID = -7");
    assert_eq!(sql::with_rowid(i64::MIN), format!("OID = {}", i64::MIN));
    assert_eq!(sql::with_pairs(("a", "b"), &Vec::new(), true), "FALSE");
    assert_eq!(
        sql::with_pairs(("a", "b"), &vec![(1, 2)], true),
        "(a, b) IN (VALUES ('1','2'))"
    );
    assert_eq!(
        sql::with_pairs(("`t`.`f`", "`t`.`g`"), &vec![(1, 2), (-30, 40), (0, i64::MAX)], false),
        format!("(`t`.`f`, `t`.`g`) IN (('1','2'),('-30','40'),('0','{}'))", i64::MAX)
    );
    assert_eq!(sql::write_signed(-120), vec!['-', '1', '2', '0']);
}
