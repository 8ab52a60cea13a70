use tag_suite::app::data;
use tag_suite::app::data::tag::api::{query_all_tags_mapped, query_tag_statistics};
use tag_suite::app::data::tag::{collect_to_string, sort_tags_lexically, Slot, Statistics};
use tag_suite::util::table::VecMap;

fn tags(list: &[(i64, &str)]) -> Vec<(i64, String)> {
    list.iter().map(|(i, n)| (*i, n.to_string())).collect()
}

#[test]
fn tags_are_sorted_by_their_names() {
    let sorted = sort_tags_lexically(tags(&[(1, "b"), (2, "a"), (3, "C"), (4, "ab"), (5, "a")]));
    assert_eq!(sorted, tags(&[(3, "C"), (2, "a"), (5, "a"), (4, "ab"), (1, "b")]));
    assert_eq!(sort_tags_lexically(Vec::new()), Vec::new());
}

#[test]
fn users_are_listed_the_tags_that_are_theirs() {
    let text = collect_to_string(tags(&[(1, "b"), (2, "tdb::api::Entity"), (3, "a")]));
    assert_eq!(text, "b\na\n");
    assert_eq!(collect_to_string(Vec::new()), "");
    assert_eq!(collect_to_string(tags(&[(2, "tdb::x")])), "");
}

#[test]
fn tags_are_mapped_by_their_ids() {
    let m = query_all_tags_mapped(tags(&[(1, "b"), (2, "a"), (1, "c")]));
    assert_eq!(m.len(), 2);
    assert_eq!(m.get(&1), Some(&"c".to_string()));
    assert_eq!(m.get(&2), Some(&"a".to_string()));
    assert_eq!(m.get(&3), None);
}

#[test]
fn statistics_count_tags_and_pairs_of_tags() {
    // three files: 1{10,20}, 2{10,20,30}, 3{30}
    let rows = vec![(1, 10), (1, 20), (2, 10), (2, 20), (2, 30), (3, 30)];
    let s = Statistics::from_filetags(rows.clone());
    assert_eq!(s.occurrences(10), 2);
    assert_eq!(s.occurrences(20), 2);
    assert_eq!(s.occurrences(30), 2);
    assert_eq!(s.occurrences(40), 0);
    assert_eq!(s.slots.len(), 3);
    let pair = |a: i64, b: i64| {
        assert_eq!(s.count.get(&(a, b)), s.count.get(&(b, a)));
        s.count.get(&(a, b)).cloned().unwrap_or(0)
    };
    assert_eq!(pair(10, 20), 2);
    assert_eq!(pair(10, 30), 1);
    assert_eq!(pair(20, 30), 1);
    assert_eq!(pair(10, 40), 0);
    let t = query_tag_statistics(rows);
    assert_eq!(t.count.len(), s.count.len());
    assert_eq!(t.occurrences(10), 2);
}

#[test]
fn pairs_are_listed_with_the_names_of_their_tags() {
    let rows = vec![(1, 10), (1, 20), (2, 10), (2, 20), (2, 30), (3, 30)];
    let s = Statistics::from_filetags(rows);
    let names = query_all_tags_mapped(tags(&[(10, "b"), (20, "a"), (30, "c")]));
    let listed = s.iter_pairs_with_names(&names).unwrap();
    assert_eq!(listed.len(), s.count.len());
    let sorted = s.sorted_pairs_with_names(&names).unwrap();
    assert_eq!(sorted.len(), listed.len());
    for w in sorted.windows(2) {
        assert!(w[0].0.name <= w[1].0.name);
        if w[0].0.name == w[1].0.name {
            assert!(w[0].2 <= w[1].2);
        }
    }
    for item in &listed {
        assert!(sorted.contains(item));
        assert_eq!(names.get(&item.0.id), Some(&item.0.name));
        assert_eq!(names.get(&item.1.id), Some(&item.1.name));
    }
    let mut few: VecMap<i64, String> = VecMap::new();
    few.insert(10, "b".to_string());
    let e = s.iter_pairs_with_names(&few).unwrap_err();
    assert!(matches!(e, data::Error::UnknownIntId { .. }));
    assert!(s.sorted_pairs_with_names(&few).is_err());
}

#[test]
fn statistics_of_nothing_are_empty() {
    let s = Statistics::from_filetags(Vec::new());
    assert_eq!(s.count.len(), 0);
    assert_eq!(s.slots.len(), 0);
    assert_eq!(s.sorted_pairs_with_names(&VecMap::new()).unwrap().len(), 0);
    let s = Statistics::from_filetags(vec![(1, 10)]);
    assert_eq!(s.count.len(), 0);
    assert_eq!(s.occurrences(10), 1);
}

#[test]
fn a_slot_counts_one_tag() {
    let mut s = Slot::new(7);
    assert_eq!(s.id(), 7);
    assert_eq!(s.occurrences(), 1);
    s.bump_occurrence();
    s.bump_occurrence();
    s.bump_pairing();
    assert_eq!(s.occurrences(), 3);
}
