use tag_suite::app::attr::{File, Tag};
use tag_suite::app::data::query::api::query_associated;
use tag_suite::app::data::query::Maps;
use tag_suite::app::data::update::api::{
    deduplicate_tags, process_file_diff, process_filetag_diff, process_tag_diff,
    query_scanned_file_ids,
};
use tag_suite::app::data::update::engine::{Event, Request};
use tag_suite::app::data::update::{Del, Diff, Ins, Scan, Scanned, Update, Walk};
use tag_suite::model::{FCol, Ids, TCol};
use tag_suite::util::table::{VecMap, VecSet};

/// A store held in memory: the rows of three tables.
#[derive(Debug, Clone, PartialEq)]
struct Index {
    files: Vec<FCol>,
    tags: Vec<TCol>,
    pairs: Vec<Ids>,
    next: i64,
}

/// A file as it is on the disk, with exactly these tags.
fn on_disk(path: &str, tags: &[&str]) -> File {
    let mut set: VecSet<Tag> = VecSet::new();
    for t in tags {
        set.insert(Tag::new(t).unwrap());
    }
    let mut f = File::open(path.to_string(), 0, None).unwrap();
    f.set_tags(&set);
    f
}

fn like(pattern: &str, text: &str) -> bool {
    let prefix = pattern.strip_suffix('%').unwrap();
    text.starts_with(prefix)
}

impl Index {
    fn sorted(&self) -> Index {
        let mut i = self.clone();
        i.files.sort();
        i.tags.sort();
        i.pairs.sort();
        i
    }

    fn named(&self) -> Vec<(String, String)> {
        let mut v: Vec<(String, String)> = self
            .pairs
            .iter()
            .map(|(f, t)| {
                (
                    self.files.iter().find(|r| r.0 == *f).unwrap().1.clone(),
                    self.tags.iter().find(|r| r.0 == *t).unwrap().1.clone(),
                )
            })
            .collect();
        v.sort();
        v
    }

    /// Brings the index up to what is on the disk under `/d`, step by step;
    /// gives back what was inserted and deleted.
    fn update(&mut self, disk: Vec<File>) -> (Ins, Del) {
        let scan = Scan::scan(vec![Scanned::Directory { root: "/d".to_string(), files: disk }]);
        let mut update = Update::new(scan);
        let mut steps = 0;
        while !update.is_done() {
            steps += 1;
            assert!(steps <= 7);
            let event = match update.request() {
                Request::Ids(scope) => Event::Ids(
                    self.files
                        .iter()
                        .filter(|f| {
                            scope.files.contains(&f.1)
                                || scope
                                    .directories
                                    .iter()
                                    .any(|(d, l)| *d == f.1 || like(l, &f.1))
                        })
                        .map(|f| f.0)
                        .collect(),
                ),
                Request::Rows(fids) => {
                    Event::Rows(self.pairs.iter().filter(|p| fids.contains(&p.0)).cloned().collect())
                }
                Request::Columns { fids, tids } => Event::Columns(
                    self.files.iter().filter(|f| fids.contains(&f.0)).cloned().collect(),
                    self.tags.iter().filter(|t| tids.contains(&t.0)).cloned().collect(),
                ),
                Request::Files { delete, insert } => {
                    self.files.retain(|f| !delete.contains(&f.1));
                    let live: Vec<i64> = self.files.iter().map(|f| f.0).collect();
                    self.pairs.retain(|p| live.contains(&p.0));
                    let mut rows = Vec::new();
                    for f in insert {
                        self.next += 1;
                        rows.push((self.next, f.path.clone(), f.kind));
                    }
                    self.files.extend(rows.iter().cloned());
                    Event::Files(rows)
                }
                Request::Names(names) => Event::Names(
                    self.tags
                        .iter()
                        .filter(|t| names.contains(&t.1))
                        .map(|t| (t.1.clone(), t.0))
                        .collect(),
                ),
                Request::Tags { delete, insert } => {
                    self.tags.retain(|t| !delete.contains(&t.1));
                    let mut rows = Vec::new();
                    for t in insert {
                        self.next += 1;
                        rows.push((self.next, t.name.clone()));
                    }
                    self.tags.extend(rows.iter().cloned());
                    Event::Tags(rows)
                }
                Request::FileTags { insert, delete } => {
                    for p in insert {
                        self.pairs.push(p.ids());
                    }
                    self.pairs.retain(|p| !delete.contains(p));
                    Event::Stored
                }
                Request::Nothing => Event::Nothing,
            };
            update = update.step(event).unwrap();
        }
        assert_eq!(steps, 7);
        match update {
            Update::Done { ins, del } => (ins, del),
            _ => panic!("the update is done"),
        }
    }
}

fn pairs(list: &[(&str, &str)]) -> Vec<(String, String)> {
    list.iter().map(|(a, b)| (a.to_string(), b.to_string())).collect()
}

#[test]
fn an_update_inserts_what_only_the_disk_has() {
    let mut index = Index {
        files: vec![(1, "/d/A".to_string(), 0)],
        tags: vec![(1, "t1".to_string())],
        pairs: vec![(1, 1)],
        next: 1,
    };
    let disk = || vec![on_disk("/d/A", &["t1", "t2"]), on_disk("/d/D", &["t3"])];
    let (ins, del) = index.update(disk());
    let files: Vec<&str> = ins.files.iter().map(|f| f.path.as_str()).collect();
    assert_eq!(files, vec!["/d/D"]);
    let mut tags: Vec<&str> = ins.tags.iter().map(|t| t.name.as_str()).collect();
    tags.sort();
    assert_eq!(tags, vec!["t2", "t3"]);
    assert_eq!(ins.filetags.len(), 2);
    assert!(del.files.is_empty() && del.tags.is_empty() && del.filetags.is_empty());
    assert_eq!(index.named(), pairs(&[("/d/A", "t1"), ("/d/A", "t2"), ("/d/D", "t3")]));

    let before = index.sorted();
    let (ins, del) = index.update(disk());
    assert!(ins.files.is_empty() && ins.tags.is_empty() && ins.filetags.is_empty());
    assert!(del.files.is_empty() && del.tags.is_empty() && del.filetags.is_empty());
    assert_eq!(index.sorted(), before);
}

#[test]
fn an_update_deletes_what_only_the_index_has() {
    let mut index = Index {
        files: vec![(1, "/d/A".to_string(), 0), (2, "/d/B".to_string(), 0)],
        tags: vec![(1, "t1".to_string()), (2, "t2".to_string())],
        pairs: vec![(1, 1), (1, 2), (2, 2)],
        next: 2,
    };
    let (ins, del) = index.update(vec![on_disk("/d/A", &["t1"])]);
    assert!(ins.files.is_empty() && ins.tags.is_empty() && ins.filetags.is_empty());
    assert_eq!(del.files, vec!["/d/B"]);
    let mut gone = del.filetags.clone();
    gone.sort();
    assert_eq!(gone, vec![(1, 2), (2, 2)]);
    assert_eq!(index.named(), pairs(&[("/d/A", "t1")]));
}

#[test]
fn an_update_reaches_what_is_on_the_disk() {
    let mut index = Index {
        files: vec![(1, "/d/A".to_string(), 0), (2, "/d/B".to_string(), 0), (3, "/d/C".to_string(), 0)],
        tags: vec![(1, "x".to_string()), (2, "y".to_string()), (3, "z".to_string())],
        pairs: vec![(1, 1), (1, 2), (2, 2), (3, 3)],
        next: 3,
    };
    index.update(vec![
        on_disk("/d/A", &["y", "w"]),
        on_disk("/d/C", &["z"]),
        on_disk("/d/E", &["x", "v"]),
    ]);
    assert_eq!(
        index.named(),
        pairs(&[("/d/A", "w"), ("/d/A", "y"), ("/d/C", "z"), ("/d/E", "v"), ("/d/E", "x")])
    );
}

#[test]
fn a_tag_that_the_store_knows_is_not_inserted_again() {
    let mut index = Index {
        files: vec![(1, "/d/A".to_string(), 0), (2, "/other/B".to_string(), 0)],
        tags: vec![(1, "t1".to_string()), (2, "t2".to_string())],
        pairs: vec![(1, 1), (2, 2)],
        next: 2,
    };
    let mut scan = Scan::new();
    Scan::scan_path(&mut scan, Scanned::File(on_disk("/d/A", &["t1", "t2"])));
    Scan::scan_path(&mut scan, Scanned::Nothing);
    let scope = query_scanned_file_ids(&mut scan);
    assert_eq!(scope.files, vec!["/d/A"]);
    assert!(scope.directories.is_empty());
    let attributes = scan.take_attributes();
    assert_eq!(attributes.len(), 1);
    let (cols, mtom) = query_associated(
        vec![(1, 1)],
        vec![index.files[0].clone()],
        vec![index.tags[0].clone()],
    )
    .unwrap();
    let mut maps = Maps::from_cols_and_mtom(&cols, mtom);
    let diff = Diff::from_cols_and_attr(&cols, &attributes, &maps).unwrap();
    assert_eq!(deduplicate_tags(&diff), vec!["t2"]);
    let mut known: VecMap<String, i64> = VecMap::new();
    known.insert("t2".to_string(), 2);
    let (mut ins, mut del) = (Ins::new(), Del::new());
    process_tag_diff(&diff, &mut ins, &mut del, &known);
    assert!(ins.tags.is_empty());
    assert!(del.tags.is_empty());
    let mut fresh = Ins::new();
    process_tag_diff(&diff, &mut fresh, &mut del, &VecMap::new());
    assert_eq!(fresh.tags.len(), 1);
    assert_eq!(fresh.tags[0].name, "t2");

    assert!(process_filetag_diff(&diff, &mut ins, &mut del, &maps).is_err());
    assert!(ins.filetags.is_empty());
    maps.add_tag(tag_suite::model::tag::Borrow { id: 2, name: "t2".to_string() });
    assert!(process_filetag_diff(&diff, &mut ins, &mut del, &maps).is_ok());
    assert_eq!(ins.filetags.len(), 1);
    assert_eq!(ins.filetags[0].ids(), (1, 2));
    index.pairs.push(ins.filetags[0].ids());
    assert_eq!(index.named(), pairs(&[("/d/A", "t1"), ("/d/A", "t2"), ("/other/B", "t2")]));
}

#[test]
fn a_diff_has_two_sides() {
    let mut diff = Diff::new();
    diff.add_tagfile(&on_disk("/d/A", &["t1", "t2"]));
    diff.add_filetag(
        tag_suite::model::file::Ident { path: "/d/A".to_string(), kind: 0 },
        tag_suite::model::tag::Ident { name: "t1".to_string() },
    );
    diff.add_filetag(
        tag_suite::model::file::Ident { path: "/d/B".to_string(), kind: 0 },
        tag_suite::model::tag::Ident { name: "t3".to_string() },
    );
    diff.shrink_to_fit();
    let (index_only, disk_only) = diff.file_diff();
    assert_eq!(index_only.len(), 1);
    assert_eq!(index_only.get(0).path, "/d/B");
    assert_eq!(disk_only.len(), 0);
    let (index_only, disk_only) = diff.tag_diff();
    assert_eq!(index_only.len(), 1);
    assert_eq!(index_only.get(0).name, "t3");
    assert_eq!(disk_only.len(), 1);
    assert_eq!(disk_only.get(0).name, "t2");
    let (index_only, disk_only) = diff.filetag_diff();
    assert_eq!(index_only.len(), 1);
    assert_eq!(index_only.get(0).0.path, "/d/B");
    assert_eq!(disk_only.len(), 1);
    assert_eq!(disk_only.get(0).1.name, "t2");
}

#[test]
fn the_kind_of_a_file_is_part_of_its_key() {
    let mut diff = Diff::new();
    diff.add_tagfile(&File::open("/d/A".to_string(), 2, None).unwrap());
    diff.add_filetag(
        tag_suite::model::file::Ident { path: "/d/A".to_string(), kind: 0 },
        tag_suite::model::tag::Ident { name: "tdb::api::Entity".to_string() },
    );
    let (index_only, disk_only) = diff.file_diff();
    assert_eq!(index_only.len(), 1);
    assert_eq!(disk_only.len(), 1);
    assert_eq!(disk_only.get(0).kind, 2);
}

#[test]
fn a_scan_collects_files_and_directories() {
    let mut scan = Scan::scan(vec![
        Scanned::File(on_disk("/x/a", &["t"])),
        Scanned::Directory {
            root: "/y".to_string(),
            files: vec![on_disk("/y/b", &["t"]), on_disk("/y/z/c", &["u"])],
        },
        Scanned::Nothing,
        Scanned::Directory { root: "/w".to_string(), files: Vec::new() },
    ]);
    scan.shrink_to_fit();
    let scope = query_scanned_file_ids(&mut scan);
    assert_eq!(scope.files, vec!["/x/a"]);
    assert_eq!(
        scope.directories,
        vec![("/y".to_string(), "/y/%".to_string()), ("/w".to_string(), "/w/%".to_string())]
    );
    assert!(scan.take_files().is_empty());
    assert!(scan.take_directories().is_empty());
    let paths: Vec<String> = scan.take_attributes().iter().map(|f| f.path().to_string()).collect();
    assert_eq!(paths, vec!["/x/a", "/y/b", "/y/z/c"]);
    assert!(scan.take_attributes().is_empty());
    let walk = Walk::new("/y".to_string(), vec!["/y/b".to_string()]);
    assert_eq!(walk.root, "/y");
    assert_eq!(walk.files, vec!["/y/b"]);
    let mut scan = Scan::new();
    scan.scan_file(on_disk("/q", &["t"]));
    scan.scan_directory("/r".to_string(), vec![on_disk("/r/s", &["t"])]);
    assert_eq!(scan.take_files(), vec!["/q"]);
    assert_eq!(scan.take_directories(), vec!["/r"]);
}

#[test]
fn an_update_refuses_what_it_did_not_ask_for() {
    let update = Update::new(Scan::new());
    assert!(!update.is_done());
    assert!(update.summary().is_none());
    assert!(matches!(update.request(), Request::Ids(_)));
    match update.step(Event::Stored) {
        Ok(_) => panic!("a step was taken"),
        Err(e) => assert_eq!(
            e,
            tag_suite::util::error::Error::Data(tag_suite::app::data::Error::WrongState {
                state: "scanned".to_string(),
                operation: "update".to_string()
            })
        ),
    }
    let update = Update::new(Scan::new()).step(Event::Ids(vec![1])).unwrap();
    match update.request() {
        Request::Rows(fids) => assert_eq!(fids, &vec![1]),
        _ => panic!("the rows are needed"),
    }
    let update = update.step(Event::Rows(vec![(1, 5), (1, 6)])).unwrap();
    match update.request() {
        Request::Columns { fids, tids } => {
            assert_eq!(fids, vec![1]);
            assert_eq!(tids, vec![5, 6]);
        }
        _ => panic!("the columns are needed"),
    }
    match update.step(Event::Columns(Vec::new(), Vec::new())) {
        Ok(_) => panic!("a step was taken"),
        Err(e) => assert_eq!(
            e,
            tag_suite::util::error::Error::Data(tag_suite::app::data::Error::WrongState {
                state: "raw".to_string(),
                operation: "columns".to_string()
            })
        ),
    }
}

#[test]
fn an_update_of_nothing_stores_nothing() {
    let mut index = Index { files: Vec::new(), tags: Vec::new(), pairs: Vec::new(), next: 0 };
    let (ins, del) = index.update(Vec::new());
    assert!(ins.files.is_empty() && ins.tags.is_empty() && ins.filetags.is_empty());
    assert!(del.files.is_empty() && del.tags.is_empty() && del.filetags.is_empty());
}
