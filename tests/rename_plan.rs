use fafnir::candidate::{dedup_by_key, Candidate, Source};
use fafnir::executor::{decide, Decision, RunTotals};
use fafnir::glob::{pattern_step, plan_pattern, select_glob_matches, FoundEntry, GlobFilter, PatternPlan, PatternStep};

fn file(path: &str) -> FoundEntry {
    FoundEntry { path: path.to_string(), is_file: true, canonical: None, relative: None }
}

fn dir(path: &str) -> FoundEntry {
    FoundEntry { path: path.to_string(), is_file: false, canonical: None, relative: None }
}

#[test]
fn invalid_glob_is_an_error() {
    let r = GlobFilter::new("a[");
    assert!(r.is_err());
    assert_eq!(r.unwrap_err().pattern, "a[");
    assert!(plan_pattern("[z-a").is_err());
}

#[test]
fn literal_pattern_plans_explicit_path() {
    match plan_pattern("notes").unwrap() {
        PatternPlan::Explicit { path } => assert_eq!(path, "notes"),
        _ => panic!("expected an explicit path"),
    }
}

#[test]
fn glob_pattern_plans_search() {
    match plan_pattern("src/*.rs").unwrap() {
        PatternPlan::Glob { root, .. } => assert_eq!(root, "src/"),
        _ => panic!("expected a glob"),
    }
}

#[test]
fn glob_selects_no_directories() {
    let f = GlobFilter::new("*").unwrap();
    let found = vec![file("a.txt"), dir("sub"), file("b.md"), dir("other.txt")];
    let c = select_glob_matches(&f, &found);
    let paths: Vec<&str> = c.iter().map(|x| x.path.as_str()).collect();
    assert_eq!(paths, vec!["a.txt", "b.md"]);
    assert!(c.iter().all(|x| x.kind == Source::Glob));
}

#[test]
fn glob_filters_by_pattern() {
    let f = GlobFilter::new("*.txt").unwrap();
    let found = vec![file("a.txt"), file("b.md"), file("c.txt")];
    let c = select_glob_matches(&f, &found);
    let paths: Vec<&str> = c.iter().map(|x| x.path.as_str()).collect();
    assert_eq!(paths, vec!["a.txt", "c.txt"]);
}

#[test]
fn absolute_glob_matches_canonical_path() {
    let f = GlobFilter::new("/data/*.log").unwrap();
    let mut e = file("x.log");
    e.canonical = Some("/data/x.log".to_string());
    let c = select_glob_matches(&f, &vec![e, file("y.log")]);
    assert_eq!(c.len(), 1);
    assert_eq!(c[0].path, "x.log");
}

fn keyed(path: &str, key: &str) -> (Candidate, String) {
    (Candidate::explicit(path.to_string()), key.to_string())
}

#[test]
fn dedup_keeps_first_of_each_key() {
    let items = vec![keyed("a", "/w/a"), keyed("./a", "/w/a"), keyed("b", "/w/b"), keyed("a", "/w/a")];
    let out = dedup_by_key(&items);
    let paths: Vec<&str> = out.iter().map(|x| x.0.path.as_str()).collect();
    assert_eq!(paths, vec!["a", "b"]);
}

#[test]
fn dedup_twice_changes_nothing() {
    let items = vec![keyed("x", "k1"), keyed("y", "k2"), keyed("z", "k1"), keyed("w", "k3"), keyed("v", "k2")];
    let once = dedup_by_key(&items);
    let twice = dedup_by_key(&once);
    let a: Vec<(&str, &str)> = once.iter().map(|x| (x.0.path.as_str(), x.1.as_str())).collect();
    let b: Vec<(&str, &str)> = twice.iter().map(|x| (x.0.path.as_str(), x.1.as_str())).collect();
    assert_eq!(a, b);
    assert_eq!(a, vec![("x", "k1"), ("y", "k2"), ("w", "k3")]);
}

#[test]
fn glob_directory_is_skipped() {
    let c = Candidate::glob("sub".to_string());
    assert!(matches!(decide(&c, "{}.bak", true, false), Decision::SkipDirectory));
}

#[test]
fn explicit_directory_is_renamed() {
    let c = Candidate::explicit("notes".to_string());
    match decide(&c, "{}-archive", true, false) {
        Decision::Rename { target } => assert_eq!(target, "notes-archive"),
        d => panic!("unexpected {:?}", d),
    }
}

#[test]
fn same_name_is_skipped() {
    let c = Candidate::glob("/tmp/report.final.md".to_string());
    assert!(matches!(decide(&c, "{}.md", false, true), Decision::SkipUnchanged { .. }));
}

#[test]
fn existing_target_is_not_overwritten() {
    let c = Candidate::glob("/tmp/x.txt".to_string());
    match decide(&c, "{}.bak", false, true) {
        Decision::SkipCollision { target } => assert_eq!(target, "/tmp/x.bak"),
        d => panic!("unexpected {:?}", d),
    }
}

#[test]
fn failed_rename_stops_the_run() {
    let mut t = RunTotals::new();
    let first = Decision::Rename { target: "a2".to_string() };
    let second = Decision::Rename { target: "b2".to_string() };
    assert!(t.record(&first, true));
    assert!(!t.record(&second, false));
    assert_eq!((t.renamed, t.skipped), (1, 0));
}

#[test]
fn skips_are_counted() {
    let mut t = RunTotals::new();
    assert!(t.record(&Decision::SkipDirectory, false));
    assert!(t.record(&Decision::SkipCollision { target: "t".to_string() }, true));
    assert_eq!((t.renamed, t.skipped), (0, 2));
}

#[test]
fn txt_files_renamed_to_bak() {
    let filter = match plan_pattern("*.txt").unwrap() {
        PatternPlan::Glob { filter, root } => {
            assert_eq!(root, ".");
            filter
        }
        _ => panic!("expected a glob"),
    };
    let found = vec![file("./a.txt"), file("./b.txt"), dir("./sub")];
    let candidates = select_glob_matches(&filter, &found);
    let keyed: Vec<(Candidate, String)> = candidates.into_iter().map(|c| {
        let k = c.path.clone();
        (c, k)
    }).collect();
    let unique = dedup_by_key(&keyed);
    let mut totals = RunTotals::new();
    let mut targets = Vec::new();
    for (c, _) in &unique {
        let d = decide(c, "{}.bak", false, false);
        if let Decision::Rename { target } = &d {
            targets.push(target.clone());
        }
        assert!(totals.record(&d, true));
    }
    assert_eq!(targets, vec!["./a.bak", "./b.bak"]);
    assert_eq!((totals.renamed, totals.skipped), (2, 0));
}

#[test]
fn doubled_separator_is_still_the_same_path() {
    let c = Candidate::glob("a//x.md".to_string());
    assert!(matches!(decide(&c, "{}.md", false, true), Decision::SkipUnchanged { .. }));
}

#[test]
fn deeply_nested_alternates_are_an_error() {
    let mut p = String::from("*{a,");
    for _ in 0..130 {
        p.push_str("{a,");
    }
    p.push('b');
    for _ in 0..131 {
        p.push('}');
    }
    assert!(GlobFilter::new(&p).is_err());
    assert!(plan_pattern(&p).is_err());
}

#[test]
fn pattern_policy_aborts_only_on_invalid_glob() {
    assert!(matches!(pattern_step(plan_pattern("a["), true), PatternStep::Abort(_)));
    match pattern_step(plan_pattern("notes"), true) {
        PatternStep::Add(c) => {
            assert_eq!(c.path, "notes");
            assert_eq!(c.kind, Source::Explicit);
        }
        s => panic!("unexpected {:?}", s),
    }
    match pattern_step(plan_pattern("gone.txt"), false) {
        PatternStep::MissingPath { path } => assert_eq!(path, "gone.txt"),
        s => panic!("unexpected {:?}", s),
    }
    let plan = plan_pattern("nowhere/*.txt").unwrap();
    assert_eq!(plan.probe_path(), "nowhere/");
    match pattern_step(Ok(plan), false) {
        PatternStep::MissingRoot { root } => assert_eq!(root, "nowhere/"),
        s => panic!("unexpected {:?}", s),
    }
    match pattern_step(plan_pattern("src/*.rs"), true) {
        PatternStep::Search { root, .. } => assert_eq!(root, "src/"),
        s => panic!("unexpected {:?}", s),
    }
}

#[test]
fn trailing_separator_on_target_is_the_same_path() {
    let c = Candidate::explicit("notes".to_string());
    assert!(matches!(decide(&c, "{}/", true, true), Decision::SkipUnchanged { .. }));
}
