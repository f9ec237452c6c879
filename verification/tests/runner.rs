use ce_test::command::{Command, Output};
use ce_test::config::{Config, Defaults, Suite};
use ce_test::local::{cargo_args, cargo_command, exit_note, verdict, Outcome};
use ce_test::report::{result_json, Report, SuiteResult};
use ce_test::runner::{Action, Event, Run, RunOpts};

fn suite(name: &str, tier: Option<&str>, location: Option<&str>) -> Suite {
    Suite {
        name: name.to_string(),
        path: format!("repo-{name}"),
        tier: tier.map(str::to_string),
        package: None,
        test: None,
        features: None,
        ignored: None,
        location: location.map(str::to_string),
    }
}

fn config(suites: Vec<Suite>) -> Config {
    Config { defaults: Defaults::default(), suites }
}

fn opts() -> RunOpts {
    RunOpts { root: "/work".to_string(), ..RunOpts::default() }
}

fn exited(success: bool, code: Option<i32>) -> Outcome {
    Outcome::Exited { success, code, stdout: Vec::new(), stderr: Vec::new() }
}

fn result(name: &str, passed: bool, skipped: bool) -> SuiteResult {
    SuiteResult {
        name: name.to_string(),
        tier: None,
        passed,
        skipped,
        nanos: 0,
        note: String::new(),
    }
}

fn test_command(action: Action) -> Command {
    match action {
        Action::Test { command, .. } => command,
        other => panic!("no test: {other:?}"),
    }
}

fn probe(action: Action) -> String {
    match action {
        Action::Probe { dir, .. } => dir,
        other => panic!("no probe: {other:?}"),
    }
}

/// Drives a run in which every directory is there and the tests of a suite pass unless its path
/// holds "bad". Gives back the report and the directories in which tests were run.
fn drive(cfg: &Config, opts: &RunOpts) -> (Report, Vec<String>) {
    let mut run = Run::begin(cfg, opts);
    let mut ran = Vec::new();
    loop {
        let event = match run.action() {
            Action::Link(_) => Event::Linked,
            Action::Probe { .. } => Event::Probed { exists: true, nanos: 1 },
            Action::Test { suite, command } => {
                let dir = command.dir.unwrap();
                assert!(dir.ends_with(&cfg.suites[suite].path));
                let good = !dir.contains("bad");
                ran.push(dir);
                let code = if good { 0 } else { 101 };
                Event::Tested { outcome: exited(good, Some(code)), nanos: 2_500_000_000 }
            }
            Action::Finish => return (run.into_report(), ran),
        };
        run.handle(event);
    }
}

#[test]
fn every_selected_suite_is_reported_in_order() {
    let cfg = config(vec![
        suite("a", Some("T1"), None),
        suite("b", Some("T3"), Some("fleet")),
        suite("bad", Some("T3"), Some("local")),
        suite("c", None, Some("node:1")),
    ]);
    let (report, ran) = drive(&cfg, &opts());
    let names: Vec<&str> = report.results.iter().map(|r| r.name.as_str()).collect();
    assert_eq!(names, ["a", "b", "bad", "c"]);
    assert_eq!(ran, ["/work/repo-a", "/work/repo-bad"]);
    assert_eq!((report.passed(), report.failed(), report.skipped()), (1, 1, 2));
    assert_eq!(report.results[0].tier.as_deref(), Some("T1"));
    assert_eq!(report.results[0].note, "");
    assert_eq!(report.results[2].note, "cargo test exited 101");
    assert_eq!(report.results[2].nanos, 2_500_000_000);
}

#[test]
fn a_suite_of_the_mesh_is_skipped_with_the_reason() {
    let cfg = config(vec![suite("b", None, Some("org:x"))]);
    let (report, ran) = drive(&cfg, &opts());
    assert!(ran.is_empty());
    let r = &report.results[0];
    assert!(r.skipped);
    assert!(!r.passed);
    assert_eq!(r.nanos, 0);
    assert_eq!(
        r.note,
        "where=org:x: distributed execution over the mesh is pending the p2p artifact path (fetch-by-CID); not run local silently"
    );
}

#[test]
fn only_one_suite() {
    let cfg = config(vec![suite("a", None, None), suite("b", None, None)]);
    let o = RunOpts { only: Some("b".to_string()), ..opts() };
    let (report, ran) = drive(&cfg, &o);
    assert_eq!(report.results.len(), 1);
    assert_eq!(report.results[0].name, "b");
    assert_eq!(ran, ["/work/repo-b"]);
}

#[test]
fn only_one_tier() {
    let cfg = config(vec![
        suite("a", Some("T1"), None),
        suite("b", None, None),
        suite("c", Some("T3"), None),
    ]);
    let o = RunOpts { tier: Some("T3".to_string()), ..opts() };
    let (report, _) = drive(&cfg, &o);
    assert_eq!(report.results.len(), 1);
    assert_eq!(report.results[0].name, "c");
    assert!(!o.selects(&cfg.suites[1]));
}

#[test]
fn name_and_tier_both_filter() {
    let cfg = config(vec![suite("a", Some("T1"), None), suite("b", Some("T3"), None)]);
    let o = RunOpts { only: Some("a".to_string()), tier: Some("T3".to_string()), ..opts() };
    let (report, _) = drive(&cfg, &o);
    assert!(report.results.is_empty());
    assert_eq!(report.failed(), 0);
}

#[test]
fn placement_of_the_run_overrides_that_of_the_suites() {
    let cfg = config(vec![suite("a", None, Some("fleet")), suite("b", None, None)]);
    let here = RunOpts { on: Some("local".to_string()), ..opts() };
    let (report, ran) = drive(&cfg, &here);
    assert_eq!((report.skipped(), ran.len()), (0, 2));
    let there = RunOpts { on: Some("fleet=mine".to_string()), ..opts() };
    let (report, ran) = drive(&cfg, &there);
    assert_eq!((report.skipped(), ran.len()), (2, 0));
    assert!(report.results[1].note.starts_with("where=fleet=mine: "));
    assert_eq!(there.location(&cfg.suites[1]), "fleet=mine");
    assert_eq!(opts().location(&cfg.suites[0]), "fleet");
}

#[test]
fn a_missing_directory_fails_the_suite() {
    let cfg = config(vec![suite("a", Some("T2"), None), suite("b", None, None)]);
    let o = opts();
    let mut run = Run::begin(&cfg, &o);
    assert_eq!(probe(run.action()), "/work/repo-a");
    run.handle(Event::Probed { exists: false, nanos: 7 });
    assert_eq!(probe(run.action()), "/work/repo-b");
    let report = run.into_report();
    assert_eq!(report.results.len(), 1);
    let r = &report.results[0];
    assert_eq!((r.passed, r.skipped, r.nanos), (false, false, 7));
    assert_eq!(r.note, "path not found: /work/repo-a");
    assert_eq!(report.failed(), 1);
}

#[test]
fn paths_of_suites_are_resolved_against_the_root() {
    let dir_of = |root: &str, path: &str| {
        let cfg = config(vec![Suite { path: path.to_string(), ..suite("a", None, None) }]);
        let o = RunOpts { root: root.to_string(), ..opts() };
        let dir = probe(Run::begin(&cfg, &o).action());
        dir
    };
    for root in ["", ".", "/", "a", "a/", "/a/b", "/ab:c"] {
        for path in ["", "x", "x/y", "/abs", "../up", "x:y", "."] {
            let joined = std::path::Path::new(root).join(path);
            assert_eq!(dir_of(root, path), joined.to_str().unwrap());
        }
    }
    let sep = std::path::MAIN_SEPARATOR;
    assert_eq!(dir_of("/work", "ce-conntest"), format!("/work{sep}ce-conntest"));
    assert_eq!(dir_of(".", "x"), format!(".{sep}x"));
    assert_eq!(dir_of("work/", "x"), "work/x");
    assert_eq!(dir_of("/work", "/abs"), "/abs");
}

#[test]
fn directories_that_are_given_are_used() {
    let cfg = config(vec![
        suite("a", None, Some("fleet")),
        suite("b", None, None),
        suite("c", None, None),
    ]);
    let o = opts();
    let dirs = vec!["A".to_string(), "B".to_string(), "C".to_string()];
    let mut run = Run::with_dirs(&cfg, &o, dirs);
    match run.action() {
        Action::Probe { suite, dir } => assert_eq!((suite, dir.as_str()), (1, "B")),
        other => panic!("{other:?}"),
    }
    run.handle(Event::Probed { exists: false, nanos: 0 });
    run.handle(Event::Probed { exists: true, nanos: 0 });
    match run.action() {
        Action::Test { suite, command } => {
            assert_eq!((suite, command.dir.as_deref()), (2, Some("C")));
        }
        other => panic!("{other:?}"),
    }
    let report = run.into_report();
    assert_eq!(report.results[1].note, "path not found: B");
}

#[test]
fn linking_comes_first_where_it_is_asked_for() {
    let mut cfg = config(vec![suite("a", None, None)]);
    let o = opts();
    cfg.defaults.dev_link = Some(true);
    let mut run = Run::begin(&cfg, &o);
    match run.action() {
        Action::Link(c) => {
            assert_eq!(c.program, "tools/ce-dev-link");
            assert!(c.args.is_empty());
            assert_eq!(c.dir.as_deref(), Some("/work"));
            assert_eq!(c.output, Output::Shown);
        }
        other => panic!("{other:?}"),
    }
    run.handle(Event::Linked);
    assert_eq!(probe(run.action()), "/work/repo-a");
    for dev_link in [None, Some(false)] {
        cfg.defaults.dev_link = dev_link;
        assert_eq!(probe(Run::begin(&cfg, &o).action()), "/work/repo-a");
    }
}

#[test]
fn capture_keeps_the_standard_output_free() {
    let mut cfg = config(vec![suite("a", None, None)]);
    cfg.defaults.dev_link = Some(true);
    let o = RunOpts { capture: true, ..opts() };
    let mut run = Run::begin(&cfg, &o);
    match run.action() {
        Action::Link(c) => assert_eq!(c.output, Output::Muted),
        other => panic!("{other:?}"),
    }
    run.handle(Event::Linked);
    run.handle(Event::Probed { exists: true, nanos: 0 });
    assert_eq!(test_command(run.action()).output, Output::Captured);
}

#[test]
fn an_event_that_answers_nothing_changes_nothing() {
    let cfg = config(vec![suite("a", None, None)]);
    let o = opts();
    let mut run = Run::begin(&cfg, &o);
    run.handle(Event::Linked);
    run.handle(Event::Tested { outcome: exited(true, Some(0)), nanos: 1 });
    assert_eq!(probe(run.action()), "/work/repo-a");
    run.handle(Event::Probed { exists: true, nanos: 0 });
    run.handle(Event::Probed { exists: false, nanos: 0 });
    assert_eq!(test_command(run.action()).program, "cargo");
    run.handle(Event::Tested { outcome: exited(true, Some(0)), nanos: 1 });
    run.handle(Event::Tested { outcome: exited(false, Some(1)), nanos: 1 });
    assert!(matches!(run.action(), Action::Finish));
    assert_eq!(run.into_report().passed(), 1);
}

#[test]
fn arguments_of_cargo() {
    let mut cfg = config(vec![]);
    let mut s = suite("a", None, None);
    assert_eq!(cargo_args(&cfg, &s), ["test", "--"]);
    s.package = Some("pkg".to_string());
    s.test = Some("comms".to_string());
    s.features = Some("serve".to_string());
    assert_eq!(
        cargo_args(&cfg, &s),
        ["test", "-p", "pkg", "--test", "comms", "--features", "serve", "--"]
    );
    cfg.defaults.ignored = Some(true);
    assert_eq!(cargo_args(&cfg, &s).last().unwrap(), "--ignored");
    s.ignored = Some(false);
    assert_eq!(cargo_args(&cfg, &s).last().unwrap(), "--");
    cfg.defaults.ignored = Some(false);
    s.ignored = Some(true);
    assert_eq!(cargo_args(&cfg, &s).last().unwrap(), "--ignored");
    s.ignored = None;
    assert_eq!(cargo_args(&cfg, &s).last().unwrap(), "--");
}

#[test]
fn command_of_a_suite() {
    let mut cfg = config(vec![]);
    let s = suite("a", None, None);
    let c = cargo_command(&cfg, &s, "/work/repo-a", false);
    assert_eq!(c.program, "cargo");
    assert_eq!(c.args, ["test", "--"]);
    assert_eq!(c.dir.as_deref(), Some("/work/repo-a"));
    assert!(c.env.is_empty());
    assert_eq!(c.output, Output::Shown);
    cfg.defaults.ce_bin = Some("/opt/ce".to_string());
    let c = cargo_command(&cfg, &s, "/work/repo-a", true);
    assert_eq!(c.env, [("CE_BIN".to_string(), "/opt/ce".to_string())]);
    assert_eq!(c.output, Output::Captured);
}

#[test]
fn the_place_of_a_suite_does_not_change_its_command() {
    let cfg = config(vec![]);
    let here = cargo_command(&cfg, &suite("a", None, None), "/work", false);
    let there = cargo_command(&cfg, &suite("a", None, Some("fleet")), "/work", false);
    assert_eq!(format!("{here:?}"), format!("{there:?}"));
}

#[test]
fn verdicts_without_capture() {
    assert_eq!(verdict(&exited(true, Some(0)), false), (true, String::new()));
    assert_eq!(
        verdict(&exited(false, Some(101)), false),
        (false, "cargo test exited 101".to_string())
    );
    assert_eq!(verdict(&exited(false, None), false), (false, "cargo test exited -1".to_string()));
    assert_eq!(
        verdict(&Outcome::NotStarted("No such file".to_string()), false),
        (false, "spawn cargo failed: No such file".to_string())
    );
}

#[test]
fn verdicts_with_capture_quote_the_end_of_the_output() {
    let outcome = Outcome::Exited {
        success: false,
        code: Some(101),
        stdout: b"1\n2\n3\n4\n5\n6\n7\n8\n9\n10\n11\n".to_vec(),
        stderr: b"error: x\nerror: y\n".to_vec(),
    };
    assert_eq!(
        verdict(&outcome, true),
        (
            false,
            "cargo test exited 101: 2 | 3 | 4 | 5 | 6 | 7 | 8 | 9 | 10 | 11 | error: x | error: y"
                .to_string()
        )
    );
    assert_eq!(verdict(&outcome, false).1, "cargo test exited 101");
    let passed = Outcome::Exited {
        success: true,
        code: Some(0),
        stdout: b"noise".to_vec(),
        stderr: Vec::new(),
    };
    assert_eq!(verdict(&passed, true), (true, String::new()));
}

#[test]
fn captured_bytes_that_are_no_text_are_replaced() {
    let outcome = Outcome::Exited {
        success: false,
        code: Some(1),
        stdout: vec![b'a', 0xff, b'\n'],
        stderr: "ü".as_bytes().to_vec(),
    };
    assert_eq!(verdict(&outcome, true).1, "cargo test exited 1: a\u{fffd} | ü");
}

#[test]
fn notes_of_failures() {
    assert_eq!(exit_note(Some(2), None), "cargo test exited 2");
    assert_eq!(exit_note(None, Some(("", ""))), "cargo test exited -1: ");
    assert_eq!(exit_note(Some(1), Some(("a\r\nb", "c\n"))), "cargo test exited 1: a | bc");
}

#[test]
fn counts_add_up() {
    let report = Report {
        results: vec![
            result("a", true, false),
            result("b", false, false),
            result("c", false, true),
            result("d", false, false),
        ],
    };
    assert_eq!(report.passed(), 1);
    assert_eq!(report.failed(), 2);
    assert_eq!(report.skipped(), 1);
    assert_eq!(report.passed() + report.failed() + report.skipped(), report.results.len());
    let empty = Report { results: vec![] };
    assert_eq!((empty.passed(), empty.failed(), empty.skipped()), (0, 0, 0));
}

#[test]
fn document_of_a_report() {
    let mut tiered = result("b", false, false);
    tiered.tier = Some("T3".to_string());
    tiered.nanos = 1_500_000_000;
    tiered.note = "cargo test exited 101".to_string();
    let report = Report { results: vec![result("a", true, false), tiered] };
    let v = report.to_json();
    assert_eq!(
        v.to_string(),
        "{\"suites\":[\
         {\"name\":\"a\",\"note\":\"\",\"passed\":true,\"secs\":0.0,\"skipped\":false},\
         {\"name\":\"b\",\"note\":\"cargo test exited 101\",\"passed\":false,\"secs\":1.5,\"skipped\":false,\"tier\":\"T3\"}],\
         \"summary\":{\"failed\":1,\"passed\":1,\"skipped\":0,\"total\":2}}"
    );
    assert_eq!(v["summary"]["failed"].as_u64(), Some(1));
}

#[test]
fn document_of_an_empty_report() {
    let v = Report { results: vec![] }.to_json();
    assert_eq!(
        v.to_string(),
        "{\"suites\":[],\"summary\":{\"failed\":0,\"passed\":0,\"skipped\":0,\"total\":0}}"
    );
}

#[test]
fn document_of_one_result() {
    let v = result_json(&result("a", false, true), serde_json::Value::from(9));
    assert_eq!(
        v.to_string(),
        "{\"name\":\"a\",\"note\":\"\",\"passed\":false,\"secs\":9,\"skipped\":true}"
    );
}
