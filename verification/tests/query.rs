use tag_suite::app::data::query::api;
use tag_suite::app::data::query::filter::read_output;
use tag_suite::app::data::query::state::{Event, Request};
use tag_suite::app::data::query::{
    Collector, Columns, FileCount, FileIds, FilePaths, Forcings, Maps, Pipeline, PipeFilter, Query,
    Results, SerializeJson, SerializePlain, SerializeYaml, Stringify, TagCount, TagFiles, TagIds,
    TagNames,
};
use tag_suite::app::data;
use tag_suite::dsl;
use tag_suite::dsl::query::Predicate;
use tag_suite::expression::{Ast, Expression, Parameters};
use tag_suite::model::{FCol, Ids, TCol};
use tag_suite::util::error::Error;
use tag_suite::util::table::VecMap;

/// A store held in memory: the rows of three tables.
struct Index {
    files: Vec<FCol>,
    tags: Vec<TCol>,
    pairs: Vec<Ids>,
}

/// Files A{t1}, B{t1,t2}, C{t2}, each with the tag that every file has.
fn index() -> Index {
    Index {
        files: vec![
            (1, "/d/A".to_string(), 0),
            (2, "/d/B".to_string(), 0),
            (3, "/d/C".to_string(), 5),
        ],
        tags: vec![
            (30, "tdb::api::Entity".to_string()),
            (10, "t1".to_string()),
            (20, "t2".to_string()),
        ],
        pairs: vec![(1, 30), (1, 10), (2, 30), (2, 10), (2, 20), (3, 30), (3, 20)],
    }
}

fn like(pattern: &[char], text: &[char]) -> bool {
    match pattern.first() {
        None => text.is_empty(),
        Some('%') => (0..=text.len()).any(|i| like(&pattern[1..], &text[i..])),
        Some('_') => !text.is_empty() && like(&pattern[1..], &text[1..]),
        Some(c) => text.first() == Some(c) && like(&pattern[1..], &text[1..]),
    }
}

fn is_like(pattern: &str, text: &str) -> bool {
    let p: Vec<char> = pattern.chars().collect();
    let t: Vec<char> = format!("::{}", text).chars().collect();
    like(&p, &t)
}

impl Index {
    fn selects(&self, p: &Predicate, file: &FCol) -> bool {
        match p {
            Predicate::Tag(pattern) => self.pairs.iter().any(|(f, t)| {
                *f == file.0 && self.tags.iter().any(|(id, name)| id == t && is_like(pattern, name))
            }),
            Predicate::Path(pattern) => is_like(pattern, &file.1),
            Predicate::Kind(k) => file.2 == *k,
            Predicate::Not(a) => !self.selects(a, file),
            Predicate::And(a, b) => self.selects(a, file) && self.selects(b, file),
            Predicate::Or(a, b) => self.selects(a, file) || self.selects(b, file),
        }
    }

    fn rows(&self, p: &Option<Predicate>) -> Vec<Ids> {
        self.pairs
            .iter()
            .filter(|(f, _)| match p {
                None => true,
                Some(p) => self.files.iter().any(|row| row.0 == *f && self.selects(p, row)),
            })
            .cloned()
            .collect()
    }

    fn columns(&self, fids: &[i64], tids: &[i64]) -> (Vec<FCol>, Vec<TCol>) {
        (
            self.files.iter().filter(|f| fids.contains(&f.0)).cloned().collect(),
            self.tags.iter().filter(|t| tids.contains(&t.0)).cloned().collect(),
        )
    }
}

/// Drives a query to its end; `shell` says what a command gives, `pipe`
/// what a command prints for an input.
fn run_with(
    index: &Index,
    pipeline: &Pipeline,
    forcings: Forcings,
    shell: &dyn Fn(&str) -> bool,
    pipe: &dyn Fn(&str, &str) -> String,
) -> Result<Results, Error> {
    let mut query = Query::new(pipeline, forcings);
    let mut steps = 0;
    while !query.is_done() {
        steps += 1;
        assert!(steps < 10);
        let event = match query.request()? {
            Request::Rows(p) => Event::Rows(index.rows(&p)),
            Request::Columns { fids, tids } => {
                let (f, t) = index.columns(&fids, &tids);
                Event::Columns(f, t)
            }
            Request::Outcomes(commands) => {
                let mut outcomes: VecMap<String, bool> = VecMap::new();
                for c in commands {
                    let v = shell(&c);
                    outcomes.insert(c, v);
                }
                Event::Outcomes(outcomes)
            }
            Request::Output { command, input } => Event::Output(pipe(&command, &input)),
            Request::Nothing => Event::Nothing,
        };
        query = query.execute(event)?;
    }
    Ok(query.results().unwrap())
}

fn pipeline(query: Option<&str>, filter: Option<&str>, pipe: Option<&str>) -> Pipeline {
    Pipeline::from_strings(
        query.map(|s| s.to_string()),
        filter.map(|s| s.to_string()),
        pipe.map(|s| s.to_string()),
    )
    .unwrap()
}

fn run(query: Option<&str>, filter: Option<&str>, forcings: Forcings) -> Results {
    let p = pipeline(query, filter, None);
    run_with(&index(), &p, forcings, &|_| false, &|_, _| String::new()).unwrap()
}

fn paths(results: Results) -> Vec<String> {
    let text = FilePaths.collect(results).unwrap();
    let mut v: Vec<String> = text.lines().map(|s| s.to_string()).collect();
    v.sort();
    v
}

fn error_of(r: Result<Results, Error>) -> Error {
    match r {
        Ok(_) => panic!("the query came to an end"),
        Err(e) => e,
    }
}

#[test]
fn a_query_by_tag_selects_the_files_with_the_tag() {
    let m = Forcings::new().mapped();
    assert_eq!(paths(run(Some("=[t1]"), None, m)), vec!["/d/A", "/d/B"]);
    assert_eq!(paths(run(Some("=[t1] & =[t2]"), None, m)), vec!["/d/B"]);
    assert_eq!(paths(run(Some("=[t1] | =[t2]"), None, m)), vec!["/d/A", "/d/B", "/d/C"]);
    assert_eq!(paths(run(Some("!=[t1]"), None, m)), vec!["/d/C"]);
    assert_eq!(paths(run(None, None, m)), vec!["/d/A", "/d/B", "/d/C"]);
    assert_eq!(paths(run(Some("=[kind::link]"), None, m)), vec!["/d/C"]);
    assert_eq!(paths(run(Some("=[path::/d/%] & !=[path::%B]"), None, m)), vec!["/d/A", "/d/C"]);
    assert_eq!(paths(run(Some("=[nope]"), None, m)), Vec::<String>::new());
}

#[test]
fn expressions_are_compiled_into_predicates() {
    let compile = |text: &str| {
        let e = Expression::new(text.to_string()).unwrap();
        dsl::query::Dsl::new().evaluate(e.as_ast(), &mut (), &())
    };
    assert_eq!(compile("=[t1]"), Ok(Predicate::Tag("::t1".to_string())));
    assert_eq!(compile("=[Foo::Bar]"), Ok(Predicate::Tag("::Foo::Bar".to_string())));
    assert_eq!(compile("=[:foo:]"), Ok(Predicate::Tag("::%::foo::%".to_string())));
    assert_eq!(compile("=[path::/home/%]"), Ok(Predicate::Path("::/home/%".to_string())));
    assert_eq!(compile("=[kind::file]"), Ok(Predicate::Kind(0)));
    assert_eq!(compile("=[kind::fifo]"), Ok(Predicate::Kind(1)));
    assert_eq!(compile("=[kind::dir]"), Ok(Predicate::Kind(2)));
    assert_eq!(compile("=[kind::chrdev]"), Ok(Predicate::Kind(3)));
    assert_eq!(compile("=[kind::blkdev]"), Ok(Predicate::Kind(4)));
    assert_eq!(compile("=[kind::link]"), Ok(Predicate::Kind(5)));
    assert_eq!(compile("=[kind::socket]"), Ok(Predicate::Kind(6)));
    assert_eq!(
        compile("(!=[a]) & (=[b] | =[c])"),
        Ok(Predicate::And(
            Box::new(Predicate::Not(Box::new(Predicate::Tag("::a".to_string())))),
            Box::new(Predicate::Or(
                Box::new(Predicate::Tag("::b".to_string())),
                Box::new(Predicate::Tag("::c".to_string())),
            )),
        ))
    );
    assert_eq!(
        compile("!=[a] & =[b]"),
        Ok(Predicate::Not(Box::new(Predicate::And(
            Box::new(Predicate::Tag("::a".to_string())),
            Box::new(Predicate::Tag("::b".to_string())),
        ))))
    );
}

#[test]
fn what_cannot_select_is_refused() {
    let compile = |text: &str| {
        let e = Expression::new(text.to_string()).unwrap();
        dsl::query::Dsl::new().evaluate(e.as_ast(), &mut (), &())
    };
    assert_eq!(compile("?[t1]"), Err(dsl::Error::InvalidModifier { c: '?' }));
    assert_eq!(compile("$[t1]"), Err(dsl::Error::InvalidModifier { c: '$' }));
    assert_eq!(
        compile("=[tdb::api]"),
        Err(dsl::Error::InvalidNamespace { name: "tdb".to_string() })
    );
    assert_eq!(
        compile("=[kind::nope]"),
        Err(dsl::Error::InvalidNamespace { name: "::nope".to_string() })
    );
    let p = pipeline(Some("?[x]"), None, None);
    let e = error_of(run_with(&index(), &p, Forcings::new(), &|_| false, &|_, _| String::new()));
    assert_eq!(e, Error::Dsl(dsl::Error::InvalidModifier { c: '?' }));
}

#[test]
fn a_filter_by_parameters_keeps_the_files_that_pass() {
    assert_eq!(paths(run(Some("=[t1]"), Some("?[tags.len >= 2]"), Forcings::new())), vec!["/d/B"]);
    assert_eq!(
        paths(run(None, Some("?[tags.len < 2]"), Forcings::new())),
        vec!["/d/A", "/d/C"]
    );
    assert_eq!(paths(run(None, Some("?[file.id == 3]"), Forcings::new())), vec!["/d/C"]);
    assert_eq!(paths(run(None, Some("?[path.len != 4]"), Forcings::new())), Vec::<String>::new());
    assert_eq!(
        paths(run(None, Some("?[path.len == 4]"), Forcings::new())),
        vec!["/d/A", "/d/B", "/d/C"]
    );
}

#[test]
fn a_filter_by_pattern_keeps_the_files_that_match() {
    let f = Forcings::new();
    assert_eq!(paths(run(None, Some("=[t1]"), f)), vec!["/d/A", "/d/B"]);
    assert_eq!(paths(run(None, Some("=[^t2$]"), f)), vec!["/d/B", "/d/C"]);
    assert_eq!(paths(run(None, Some("=[path::[AB\\]$]"), f)), vec!["/d/A", "/d/B"]);
    assert_eq!(paths(run(None, Some("=[path::B] | !=[^t.$]"), f)), vec!["/d/B"]);
    assert_eq!(paths(run(None, Some("=[Entity]"), f)), vec!["/d/A", "/d/B", "/d/C"]);
    assert_eq!(paths(run(None, Some("(!=[t1]) & =[t2]"), f)), vec!["/d/C"]);
    assert_eq!(paths(run(None, Some("!=[t1] & =[t2]"), f)), vec!["/d/A", "/d/C"]);
    assert_eq!(paths(run(None, Some("=[x]"), f)), Vec::<String>::new());
}

#[test]
fn a_filter_reports_what_it_cannot_evaluate() {
    let f = Forcings::new();
    let nothing = |_: &str, _: &str| String::new();
    let p = pipeline(None, Some("?[nope == 1]"), None);
    assert_eq!(
        error_of(run_with(&index(), &p, f, &|_| false, &nothing)),
        Error::Expression(tag_suite::expression::Error::UnknownVariable {
            variable: "nope".to_string()
        })
    );
    let p = pipeline(None, Some("?[tags.len]"), None);
    assert_eq!(
        error_of(run_with(&index(), &p, f, &|_| false, &nothing)),
        Error::Expression(tag_suite::expression::Error::FailedCapture {
            expression: "tags.len".to_string()
        })
    );
    let maps = maps();
    let outcomes: VecMap<String, bool> = VecMap::new();
    let mut context = dsl::filter::Context::new();
    assert_eq!(
        dsl::filter::Dsl::new(&outcomes).evaluate(
            &Ast::Expr('%', "t1".to_string()),
            &mut context,
            &maps.file(1).unwrap()
        ),
        Err(Error::Dsl(dsl::Error::InvalidModifier { c: '%' }))
    );
    assert_eq!(
        dsl::filter::Dsl::new(&outcomes).evaluate(
            &Ast::Expr('=', "t1".to_string()),
            &mut context,
            &maps.file(1).unwrap()
        ),
        Ok(true)
    );
    let p = pipeline(None, Some("=[kind::file]"), None);
    assert_eq!(
        error_of(run_with(&index(), &p, f, &|_| false, &nothing)),
        Error::Dsl(dsl::Error::InvalidNamespace { name: "kind".to_string() })
    );
    let p = pipeline(None, Some("=[(]"), None);
    assert_eq!(
        error_of(run_with(&index(), &p, f, &|_| false, &nothing)),
        Error::Dsl(dsl::Error::InvalidPattern { pattern: "(".to_string() })
    );
}

#[test]
fn a_filter_by_command_asks_for_the_outcome_of_each_file() {
    let p = pipeline(None, Some("$[test -f {}]"), None);
    let seen = std::cell::RefCell::new(Vec::new());
    let shell = |c: &str| {
        seen.borrow_mut().push(c.to_string());
        c.ends_with("B")
    };
    let r = run_with(&index(), &p, Forcings::new(), &shell, &|_, _| String::new()).unwrap();
    assert_eq!(paths(r), vec!["/d/B"]);
    let mut seen = seen.into_inner();
    seen.sort();
    assert_eq!(seen, vec!["test -f /d/A", "test -f /d/B", "test -f /d/C"]);
}

#[test]
fn paths_are_quoted_for_the_shell() {
    assert_eq!(dsl::filter::dsl::shell_command("ls {}", "/d/a"), "ls /d/a");
    assert_eq!(dsl::filter::dsl::shell_command("ls {}", "/d/a b"), "ls '/d/a b'");
    assert_eq!(dsl::filter::dsl::shell_command("ls {}", "it's"), "ls 'it'\\''s'");
    assert_eq!(dsl::filter::dsl::shell_command("cp {} {}.bak", "a$b"), "cp 'a$b' 'a$b'.bak");
    assert_eq!(dsl::filter::dsl::shell_command("true", "/d/a"), "true");
    assert_eq!(dsl::filter::dsl::shell_command("ls {}", ""), "ls ''");
    assert_eq!(
        dsl::filter::dsl::shell_command("ls {}", "a-b_c.d/e+f:g@h,i=j"),
        "ls 'a-b_c.d/e+f:g@h,i=j'"
    );
    assert_eq!(dsl::filter::dsl::shell_command("ls {}", "a-b_c.d/e+f,i=j"), "ls a-b_c.d/e+f,i=j");
    assert_eq!(dsl::filter::dsl::shell_command("ls {}", "wow!"), "ls 'wow'\\!''");
    let ast = Ast::Expr('$', "ls {}".to_string());
    assert_eq!(dsl::filter::Dsl::commands(&ast, "/x y"), vec!["ls '/x y'"]);
    let ast = Expression::new("$[a {}] & (=[t] | !$[b])".to_string()).unwrap();
    assert_eq!(dsl::filter::Dsl::commands(ast.as_ast(), "/p"), vec!["a /p", "b"]);
}

#[test]
fn a_missing_outcome_is_an_error() {
    let p = pipeline(None, Some("$[true]"), None);
    let mut q = Query::new(&p, Forcings::new());
    let idx = index();
    for _ in 0..3 {
        let event = match q.request().unwrap() {
            Request::Rows(p) => Event::Rows(idx.rows(&p)),
            Request::Columns { fids, tids } => {
                let (f, t) = idx.columns(&fids, &tids);
                Event::Columns(f, t)
            }
            _ => Event::Nothing,
        };
        q = match q.execute(event) {
            Ok(q) => q,
            Err(e) => panic!("{:?}", e),
        };
    }
    match q.execute(Event::Outcomes(VecMap::new())) {
        Ok(_) => panic!("the filter passed"),
        Err(e) => assert_eq!(
            e,
            Error::Dsl(dsl::Error::MissingOutcome { command: "true".to_string() })
        ),
    }
}

#[test]
fn a_pipe_keeps_the_files_whose_paths_come_out() {
    let p = pipeline(None, None, Some("grep -v A"));
    let pipe = |command: &str, input: &str| {
        assert_eq!(command, "grep -v A");
        let mut lines: Vec<&str> = input.lines().collect();
        lines.sort();
        assert_eq!(lines, vec!["/d/A", "/d/B", "/d/C"]);
        assert!(input.ends_with('\n'));
        "/d/C\n\n/d/B\n".to_string()
    };
    let r = run_with(&index(), &p, Forcings::new(), &|_| false, &pipe).unwrap();
    assert_eq!(r.name(), "Piped");
    assert_eq!(FileIds.collect(r), Ok(vec![3, 2]));
}

#[test]
fn a_pipe_after_a_filter_is_fed_what_the_filter_kept() {
    let p = pipeline(Some("=[t_]"), Some("=[t1]"), Some("cat"));
    let pipe = |_: &str, input: &str| {
        let mut lines: Vec<&str> = input.lines().collect();
        lines.sort();
        assert_eq!(lines, vec!["/d/A", "/d/B"]);
        "/d/A\n".to_string()
    };
    let r = run_with(&index(), &p, Forcings::new(), &|_| false, &pipe).unwrap();
    assert_eq!(paths(r), vec!["/d/A"]);
}

#[test]
fn a_pipe_that_prints_an_unknown_path_fails() {
    let p = pipeline(None, None, Some("echo"));
    let r = run_with(&index(), &p, Forcings::new(), &|_| false, &|_, _| "/d/Z\n".to_string());
    assert_eq!(
        error_of(r),
        Error::Data(data::Error::UnknownStrId { id: "/d/Z".to_string() })
    );
}

#[test]
fn what_is_filtered_or_piped_was_mapped() {
    let mapped = paths(run(Some("=[t1]"), None, Forcings::new().mapped()));
    assert_eq!(mapped.len(), 2);
    for filter in ["=[t1]", "?[tags.len >= 2]", "!=[t2]", "=[path::.]"] {
        for file in paths(run(Some("=[t1]"), Some(filter), Forcings::new())) {
            assert!(mapped.contains(&file));
        }
    }
    let p = pipeline(Some("=[t1]"), None, Some("cat"));
    let r = run_with(&index(), &p, Forcings::new(), &|_| false, &|_, i| i.to_string()).unwrap();
    let within = paths(run(Some("=[t1]"), None, Forcings::new().mapped()));
    for file in paths(r) {
        assert!(within.contains(&file));
    }
}

#[test]
fn the_stages_of_a_query_depend_on_what_is_forced() {
    assert_eq!(run(None, None, Forcings::new()).name(), "Unassociated");
    assert_eq!(run(None, None, Forcings::new().mapped()).name(), "Mapped");
    assert_eq!(run(None, Some("=[t1]"), Forcings::new()).name(), "Filtered");
    assert_eq!(run(None, Some("=[t1]"), Forcings::new().mapped()).name(), "Filtered");
    let p = pipeline(None, Some("=[t1]"), Some("cat"));
    let r = run_with(&index(), &p, Forcings::new(), &|_| false, &|_, i| i.to_string()).unwrap();
    assert_eq!(r.name(), "Piped");
}

#[test]
fn forcings_are_flags() {
    let none = Forcings::new();
    assert!(none.has_none());
    assert!(!none.has_mapped() && !none.has_filtered() && !none.has_piped());
    let m = none.mapped();
    assert!(m.has_mapped() && !m.has_filtered() && !m.has_piped() && !m.has_none());
    let f = none.filtered();
    assert!(f.has_mapped() && f.has_filtered() && !f.has_piped());
    let p = none.piped();
    assert!(p.has_mapped() && !p.has_filtered() && p.has_piped());
    let both = f.combine(p);
    assert!(both.has_mapped() && both.has_filtered() && both.has_piped());
    assert!(none.combine(none).has_none());
    assert!(pipeline(None, None, None).forcings().has_none());
    assert!(pipeline(None, Some("=[a]"), None).forcings().has_filtered());
    assert!(pipeline(None, None, Some("cat")).forcings().has_piped());
    assert!(!pipeline(Some("=[a]"), None, None).forcings().has_mapped());
}

#[test]
fn an_event_of_the_wrong_kind_is_refused() {
    let p = pipeline(None, None, None);
    let q = Query::new(&p, Forcings::new());
    assert!(matches!(q.request(), Ok(Request::Rows(None))));
    match q.execute(Event::Nothing) {
        Ok(_) => panic!("a step was taken"),
        Err(e) => assert_eq!(
            e,
            Error::Data(data::Error::WrongState {
                state: "init".to_string(),
                operation: "drive".to_string()
            })
        ),
    }
    let q = Query::new(&p, Forcings::new());
    let q = match q.execute(Event::Rows(vec![(1, 10)])) {
        Ok(q) => q,
        Err(e) => panic!("{:?}", e),
    };
    match q.request() {
        Ok(Request::Columns { fids, tids }) => {
            assert_eq!(fids, vec![1]);
            assert_eq!(tids, vec![10]);
        }
        _ => panic!("columns are needed"),
    }
    match q.execute(Event::Output(String::new())) {
        Ok(_) => panic!("a step was taken"),
        Err(e) => assert_eq!(
            e,
            Error::Data(data::Error::WrongState {
                state: "raw".to_string(),
                operation: "drive".to_string()
            })
        ),
    }
}

#[test]
fn a_query_that_is_done_stays_done() {
    let p = pipeline(None, None, None);
    let mut q = Query::new(&p, Forcings::new());
    let idx = index();
    for _ in 0..3 {
        let event = match q.request().unwrap() {
            Request::Rows(p) => Event::Rows(idx.rows(&p)),
            Request::Columns { fids, tids } => {
                let (f, t) = idx.columns(&fids, &tids);
                Event::Columns(f, t)
            }
            _ => Event::Nothing,
        };
        q = q.execute(event).ok().unwrap();
    }
    assert!(q.is_done());
    assert!(matches!(q.request(), Ok(Request::Nothing)));
    let q = q.execute(Event::Rows(Vec::new())).ok().unwrap();
    assert!(q.is_done());
    assert_eq!(q.results().unwrap().row_count(), 3);
}

#[test]
fn results_that_are_not_mapped_have_no_views() {
    let r = run(None, None, Forcings::new());
    assert!(r.maps_ref().is_none());
    assert_eq!(r.row_count(), 3);
    assert_eq!(r.file_count(), 3);
    assert_eq!(r.file_iter().unwrap().len(), 3);
    assert_eq!(r.tag_iter().unwrap().len(), 3);
    assert_eq!(
        r.file_view_iter().err(),
        Some(Error::Data(data::Error::WrongState {
            state: "Unassociated".to_string(),
            operation: "file_view_iter()".to_string()
        }))
    );
    assert!(r.tag_view_iter().is_err());
}

#[test]
fn collectors_take_their_part_of_the_results() {
    let m = Forcings::new().mapped();
    assert_eq!(FileIds.collect(run(Some("=[t1]"), None, m)), Ok(vec![1, 2]));
    assert_eq!(TagIds.collect(run(Some("=[t1]"), None, m)), Ok(vec![30, 10, 20]));
    assert_eq!(FileCount.collect(run(Some("=[t1]"), None, m)), Ok(2));
    assert_eq!(FilePaths.collect(run(Some("=[t1]"), None, m)), Ok("/d/A\n/d/B\n".to_string()));
    assert_eq!(
        TagNames.collect(run(Some("=[t1]"), None, m)),
        Ok("tdb::api::Entity\nt1\nt2\n".to_string())
    );
    assert_eq!(3usize.stringify(), "3\n");
    assert_eq!(0usize.stringify(), "0\n");
    assert_eq!(
        paths(run(None, Some("=[t2]"), Forcings::new())),
        vec!["/d/B".to_string(), "/d/C".to_string()]
    );
    assert_eq!(FileIds.collect(run(None, Some("=[t2] & =[t1]"), Forcings::new())), Ok(vec![2]));
    assert_eq!(FileCount.collect(run(Some("=[t2] & =[t1]"), None, Forcings::new())), Ok(1));
    assert!(FileIds.forcings().has_none());
    assert!(FileCount.forcings().has_none());
    assert!(SerializePlain.forcings().has_mapped());
    assert!(SerializeYaml.forcings().has_mapped());
    assert!(SerializeJson.forcings().has_mapped());
}

#[test]
fn files_are_serialized_with_the_tags_that_users_see() {
    let idx = index();
    let p = pipeline(Some("=[t1] & =[t2]"), None, None);
    let run = |f: Forcings| run_with(&idx, &p, f, &|_| false, &|_, _| String::new()).unwrap();
    let files = SerializeYaml.collect(run(SerializeYaml.forcings())).unwrap();
    assert_eq!(files.len(), 1);
    assert_eq!(files[0].path, "/d/B");
    let mut tags = files[0].tags.clone();
    tags.sort();
    assert_eq!(tags, vec!["t1", "t2"]);
    let json = SerializeJson.collect(run(SerializeJson.forcings())).unwrap();
    assert_eq!(json, files);
    let plain = SerializePlain.collect(run(SerializePlain.forcings())).unwrap();
    assert_eq!(plain, files[0].to_plain() + "\n");
    assert!(plain.starts_with("/d/B\n "));
}

#[test]
fn rows_are_associated_in_the_order_in_which_they_come() {
    let rows = vec![(2, 20), (1, 10), (2, 10), (1, 10)];
    let (fids, tids, mtom) = api::associate(&rows);
    assert_eq!(fids, vec![2, 1]);
    assert_eq!(tids, vec![20, 10]);
    assert_eq!(mtom.get_rs(&2).unwrap().len(), 2);
    assert_eq!(mtom.get_rs(&1).unwrap().len(), 1);
    assert_eq!(mtom.get_ls(&10).unwrap().len(), 2);
    assert_eq!(api::query_columns(&rows), (vec![2, 1], vec![20, 10]));
    assert_eq!(api::query_columns(&Vec::new()), (vec![], vec![]));
}

#[test]
fn columns_that_do_not_fit_the_rows_are_refused() {
    let idx = index();
    let cols = api::query_unassociated(idx.pairs.clone(), idx.files.clone(), idx.tags.clone());
    assert!(cols.is_ok());
    let short = api::query_unassociated(idx.pairs.clone(), idx.files[..2].to_vec(), idx.tags.clone());
    assert!(short.is_err());
    let short = api::query_associated(idx.pairs.clone(), idx.files.clone(), Vec::new());
    assert!(short.is_err());
    let (cols, mtom) =
        api::query_associated(idx.pairs.clone(), idx.files.clone(), idx.tags.clone()).unwrap();
    let maps = Maps::from_cols_and_mtom(&cols, mtom);
    assert_eq!(maps.fids().len(), 3);
    assert_eq!(maps.tids().len(), 3);
}

fn maps() -> Maps {
    let idx = index();
    let (_, _, mtom) = api::associate(&idx.pairs);
    let cols = Columns::from_cols(idx.files, idx.tags, idx.pairs);
    Maps::from_cols_and_mtom(&cols, mtom)
}

#[test]
fn a_file_is_seen_with_its_tags() {
    let maps = maps();
    let b = maps.file(2).unwrap();
    assert_eq!(b.id(), 2);
    assert_eq!(b.path(), "/d/B");
    assert_eq!(b.kind(), 0);
    assert_eq!(b.tag_ids().len(), 3);
    assert_eq!(b.tag(20).unwrap().name(), "t2");
    assert!(b.tag(99).is_err());
    assert_eq!(b.as_borrow().path, "/d/B");
    let set = b.tag_set().unwrap();
    assert_eq!(set.len(), 3);
    let mut it = b.iter();
    let mut names = Vec::new();
    while let Some(t) = it.next() {
        names.push(t.unwrap().name().to_string());
    }
    assert_eq!(names, vec!["tdb::api::Entity", "t1", "t2"]);
    let t = maps.tag(10).unwrap();
    assert_eq!(t.id(), 10);
    assert_eq!(t.name(), "t1");
    assert_eq!(t.file_ids().len(), 2);
    assert_eq!(t.as_borrow().name, "t1");
    let mut it = t.iter();
    let mut files = Vec::new();
    while let Some(f) = it.next() {
        files.push(f.unwrap().path().to_string());
    }
    assert_eq!(files, vec!["/d/A", "/d/B"]);
    assert!(maps.file(9).is_err());
    assert!(maps.tag(9).is_err());
    assert_eq!(maps.by_path("/d/C"), Some(3));
    assert_eq!(maps.by_path("/d/Z"), None);
}

#[test]
fn a_file_has_three_parameters() {
    let maps = maps();
    let b = maps.file(2).unwrap();
    let p = b.parameters();
    assert_eq!(p.len(), 3);
    assert_eq!(p.get(&"tags.len".to_string()), Some(&2));
    assert_eq!(p.get(&"path.len".to_string()), Some(&4));
    assert_eq!(p.get(&"file.id".to_string()), Some(&2));
    assert_eq!(p.get(&"kind".to_string()), None);
}

#[test]
fn maps_are_filled_one_pair_at_a_time() {
    let mut m = Maps::new();
    m.add_filetag(
        tag_suite::model::file::Borrow { id: 1, path: "/a".to_string(), kind: 0 },
        tag_suite::model::tag::Borrow { id: 5, name: "x".to_string() },
    );
    m.add_tag(tag_suite::model::tag::Borrow { id: 6, name: "y".to_string() });
    m.add_ids(1, 6);
    m.add_file(tag_suite::model::file::Borrow { id: 2, path: "/b".to_string(), kind: 0 });
    m.shrink_to_fit();
    assert_eq!(m.file(1).unwrap().tag_ids().len(), 2);
    assert_eq!(m.tag(6).unwrap().file_ids().len(), 1);
    assert!(m.file(2).is_err());
    assert_eq!(m.mtom().ls_len(), 1);
}

#[test]
fn the_output_of_a_pipe_is_read_line_by_line() {
    let maps = maps();
    assert_eq!(read_output(&maps, "/d/B\n/d/A\n"), Ok(vec![2, 1]));
    assert_eq!(read_output(&maps, "/d/B"), Ok(vec![2]));
    assert_eq!(read_output(&maps, ""), Ok(vec![]));
    assert_eq!(read_output(&maps, "\n\n"), Ok(vec![]));
    assert_eq!(read_output(&maps, "/d/B\n/d/B\n"), Ok(vec![2, 2]));
    assert_eq!(
        read_output(&maps, "/d/B\n/d/b\n"),
        Err(Error::Data(data::Error::UnknownStrId { id: "/d/b".to_string() }))
    );
    let pipe = PipeFilter::new(&maps, "sort");
    assert_eq!(pipe.command_line(), "sort");
    assert_eq!(pipe.input(&vec![3, 1]), Ok("/d/C\n/d/A\n".to_string()));
    assert_eq!(pipe.input(&vec![]), Ok(String::new()));
    assert!(pipe.input(&vec![7]).is_err());
}

#[test]
fn tag_counts_and_tag_files() {
    let m = Forcings::new().mapped();
    let n = TagCount.collect(run(Some("=[t1]"), None, m)).unwrap();
    assert_eq!(n, 2);
    let files = TagFiles.collect(run(Some("=[t1]"), None, TagFiles.forcings()));
    assert!(files.is_ok());
}

#[test]
fn expressions_are_compiled_for_the_associations() {
    let compile = |text: &str| {
        let e = Expression::new(text.to_string()).unwrap();
        dsl::combinator::Dsl::new().evaluate(e.as_ast(), &mut (), &())
    };
    assert_eq!(compile("=[t1]"), Ok(Predicate::Tag("::t1".to_string())));
    assert_eq!(compile("=[path::/a/%]"), Ok(Predicate::Path("::/a/%".to_string())));
    assert_eq!(
        compile("=[a] | =[b]"),
        Ok(Predicate::Or(
            Box::new(Predicate::Tag("::a".to_string())),
            Box::new(Predicate::Tag("::b".to_string())),
        ))
    );
    assert_eq!(
        compile("=[kind::file]"),
        Err(dsl::Error::InvalidNamespace { name: "kind".to_string() })
    );
    assert_eq!(compile("?[a]"), Err(dsl::Error::InvalidModifier { c: '?' }));
}

#[test]
fn the_files_of_the_maps_are_filtered_in_their_order() {
    let maps = maps();
    let outcomes: VecMap<String, bool> = VecMap::new();
    let filter = Expression::new("=[t2]".to_string()).unwrap();
    assert_eq!(
        tag_suite::app::data::query::filter::filter_dsl(&maps, &filter, &outcomes),
        Ok(vec![2, 3])
    );
    let filter = Expression::new("$[true]".to_string()).unwrap();
    assert_eq!(
        tag_suite::app::data::query::filter::filter_dsl(&maps, &filter, &outcomes),
        Err(Error::Dsl(dsl::Error::MissingOutcome { command: "true".to_string() }))
    );
}
