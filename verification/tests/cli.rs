use ce_test::cli::{
    config_path, exit_status, flag, has_flag, list_head, list_json, list_line, result_line,
    run_opts, summary_line, tag, task, usage, wants_json, Task,
};
use ce_test::config::{Config, Defaults, Suite};
use ce_test::report::{Report, SuiteResult};

fn args(words: &[&str]) -> Vec<String> {
    words.iter().map(|w| w.to_string()).collect()
}

fn suite() -> Suite {
    Suite {
        name: "conntest-comms".to_string(),
        path: "ce-conntest".to_string(),
        tier: Some("T3".to_string()),
        package: None,
        test: Some("comms".to_string()),
        features: None,
        ignored: None,
        location: None,
    }
}

fn bare() -> Suite {
    Suite { tier: None, test: None, location: Some("fleet".to_string()), ..suite() }
}

fn result(passed: bool, skipped: bool, note: &str) -> SuiteResult {
    SuiteResult {
        name: "conntest-comms".to_string(),
        tier: None,
        passed,
        skipped,
        nanos: 1_000_000_000,
        note: note.to_string(),
    }
}

#[test]
fn value_of_a_flag() {
    let a = args(&["ce-test", "run", "--suite", "my-comms", "--json"]);
    assert_eq!(flag(&a, "--suite").as_deref(), Some("my-comms"));
    assert_eq!(flag(&a, "--tier"), None);
    assert_eq!(flag(&a, "--json"), None);
    let twice = args(&["x", "--on", "a", "--on", "b"]);
    assert_eq!(flag(&twice, "--on").as_deref(), Some("a"));
    let odd = args(&["x", "--on", "--json"]);
    assert_eq!(flag(&odd, "--on").as_deref(), Some("--json"));
    assert_eq!(flag(&[], "--on"), None);
}

#[test]
fn presence_of_a_flag() {
    let a = args(&["ce-test", "list", "--json"]);
    assert!(has_flag(&a, "--json"));
    assert!(!has_flag(&a, "--jso"));
    assert!(!has_flag(&[], "--json"));
    assert!(wants_json(&a));
    assert!(!wants_json(&args(&["ce-test"])));
}

#[test]
fn what_is_asked_for() {
    assert_eq!(task(&args(&["ce-test"])), Task::Run);
    assert_eq!(task(&[]), Task::Run);
    assert_eq!(task(&args(&["ce-test", "run"])), Task::Run);
    assert_eq!(task(&args(&["ce-test", "list", "run"])), Task::List);
    assert_eq!(task(&args(&["ce-test", "--json"])), Task::Usage);
    assert_eq!(task(&args(&["ce-test", "help"])), Task::Usage);
}

#[test]
fn where_the_configuration_is() {
    let a = args(&["ce-test", "run", "--config", "a/b.toml"]);
    assert_eq!(config_path(&a, Some("env.toml".to_string())), "a/b.toml");
    let a = args(&["ce-test", "run"]);
    assert_eq!(config_path(&a, Some("env.toml".to_string())), "env.toml");
    assert_eq!(config_path(&a, None), "cetest.toml");
}

#[test]
fn options_of_a_run() {
    let a = args(&["ce-test", "run", "--tier", "T3", "--on", "fleet=mine", "--json"]);
    let o = run_opts(&a, "root".to_string());
    assert_eq!(o.only, None);
    assert_eq!(o.tier.as_deref(), Some("T3"));
    assert_eq!(o.on.as_deref(), Some("fleet=mine"));
    assert_eq!(o.root, "root");
    assert!(o.capture);
    assert!(!run_opts(&args(&["ce-test"]), String::new()).capture);
}

#[test]
fn suites_are_listed() {
    let cfg = Config { defaults: Defaults::default(), suites: vec![suite(), bare()] };
    assert_eq!(list_head("cetest.toml", &cfg), "suites in cetest.toml (2):");
    assert_eq!(
        list_line(&suite()),
        format!("  {:<26} tier={:<3} where={:<10} ce-conntest [--test comms]", "conntest-comms", "T3", "local")
    );
    assert_eq!(
        list_line(&bare()),
        "  conntest-comms             tier=-   where=fleet      ce-conntest [unit]"
    );
}

#[test]
fn suites_are_listed_as_a_document() {
    let cfg = Config { defaults: Defaults::default(), suites: vec![suite(), bare()] };
    assert_eq!(
        list_json(&cfg).to_string(),
        "{\"suites\":[\
         {\"name\":\"conntest-comms\",\"path\":\"ce-conntest\",\"test\":\"comms\",\"tier\":\"T3\",\"where\":\"local\"},\
         {\"name\":\"conntest-comms\",\"path\":\"ce-conntest\",\"test\":null,\"tier\":null,\"where\":\"fleet\"}]}"
    );
    assert_eq!(list_json(&Config::default()).to_string(), "{\"suites\":[]}");
}

#[test]
fn results_are_shown() {
    assert_eq!(tag(&result(true, false, "")), "PASS");
    assert_eq!(tag(&result(false, false, "")), "FAIL");
    assert_eq!(tag(&result(false, true, "")), "SKIP");
    assert_eq!(tag(&result(true, true, "")), "SKIP");
    assert_eq!(
        result_line(&result(true, false, ""), "  1.0"),
        "  [PASS] conntest-comms               1.0s"
    );
    assert_eq!(
        result_line(&result(false, false, "cargo test exited 101"), "  1.0"),
        "  [FAIL] conntest-comms               1.0s  (cargo test exited 101)"
    );
}

#[test]
fn counts_are_shown() {
    let report = Report {
        results: vec![result(true, false, ""), result(false, false, "x"), result(false, true, "y")],
    };
    assert_eq!(summary_line(&report), "3 suites: 1 passed, 1 failed, 1 skipped");
}

#[test]
fn status_is_nonzero_just_where_a_suite_failed() {
    let ok = Report { results: vec![result(true, false, ""), result(false, true, "y")] };
    assert_eq!(exit_status(&ok), 0);
    let bad = Report { results: vec![result(true, false, ""), result(false, false, "x")] };
    assert_eq!(exit_status(&bad), 1);
    assert_eq!(exit_status(&Report { results: vec![] }), 0);
}

#[test]
fn usage_names_the_flags() {
    assert_eq!(
        usage(),
        "usage: ce-test [run|list] [--config cetest.toml] [--suite NAME] [--tier T1|T2|T3] [--on <target>] [--json]"
    );
}
