//! The command line: what is asked for, and how the suites and the results are shown.

use crate::command;
use crate::config::{Config, Suite};
use crate::json;
use crate::laws;
use crate::report;
use crate::report::{Report, ResultView, SuiteResult};
use crate::runner;
use crate::runner::RunOpts;
use crate::text;
use serde_json::Value;
use vstd::prelude::*;
use vstd::string::*;

verus! {

/// The first place of `name` in `args` at or after `from`; the number of arguments where it is
/// not there.
pub open spec fn place_of(args: Seq<Seq<char>>, name: Seq<char>, from: int) -> int
    decreases args.len() - from,
{
    if from >= args.len() {
        args.len() as int
    } else if args[from] == name {
        from
    } else {
        place_of(args, name, from + 1)
    }
}

/// The value of a flag: the argument behind its first place.
pub open spec fn flag_value(args: Seq<Seq<char>>, name: Seq<char>) -> Option<Seq<char>> {
    let next = place_of(args, name, 0) + 1;
    if next < args.len() {
        Some(args[next])
    } else {
        None
    }
}

/// The value of a flag: the argument behind its first place, `None` where the flag is not given or
/// nothing follows it.
pub fn flag(args: &[String], name: &str) -> (r: Option<String>)
    ensures
        text::opt(r) == flag_value(command::texts(args@), name@),
{
    let wanted: String = name.to_owned();
    let ghost all = command::texts(args@);
    let mut i: usize = 0;
    while i < args.len()
        invariant
            i <= args@.len(),
            wanted@ == name@,
            all == command::texts(args@),
            place_of(all, name@, 0) == place_of(all, name@, i as int),
        decreases args@.len() - i,
    {
        if args[i] == wanted {
            if i + 1 < args.len() {
                return Some(args[i + 1].clone());
            }
            return None;
        }
        i = i + 1;
    }
    None
}

/// Whether a flag is given.
pub fn has_flag(args: &[String], name: &str) -> (r: bool)
    ensures
        r == command::texts(args@).contains(name@),
{
    let wanted: String = name.to_owned();
    let ghost all = command::texts(args@);
    let mut i: usize = 0;
    while i < args.len()
        invariant
            i <= args@.len(),
            wanted@ == name@,
            all == command::texts(args@),
            forall|k: int| 0 <= k < i ==> #[trigger] all[k] != name@,
        decreases args@.len() - i,
    {
        if args[i] == wanted {
            proof {
                assert(all[i as int] == name@);
            }
            return true;
        }
        i = i + 1;
    }
    false
}

/// A flag has a value just where it is given and an argument follows its first place; the value
/// is that argument.
pub proof fn law_flag_value(args: Seq<Seq<char>>, name: Seq<char>)
    ensures
        flag_value(args, name) is Some ==> args.contains(name),
        forall|i: int|
            0 <= i < args.len() && #[trigger] args[i] == name && (forall|k: int|
                0 <= k < i ==> #[trigger] args[k] != name) ==> flag_value(args, name) == if i + 1
                < args.len() {
                Some(args[i + 1])
            } else {
                None
            },
{
    lemma_place_of(args, name, 0);
}

/// Where the first place of an argument is.
proof fn lemma_place_of(args: Seq<Seq<char>>, name: Seq<char>, from: int)
    requires
        0 <= from <= args.len(),
    ensures
        from <= place_of(args, name, from) <= args.len(),
        place_of(args, name, from) < args.len() ==> args[place_of(args, name, from)] == name,
        forall|k: int| from <= k < place_of(args, name, from) ==> #[trigger] args[k] != name,
    decreases args.len() - from,
{
    if from < args.len() && args[from] != name {
        lemma_place_of(args, name, from + 1);
    }
}

/// What the program is asked to do.
#[derive(Debug, Clone, Copy, PartialEq, Eq, Structural)]
pub enum Task {
    /// Show the configured suites.
    List,
    /// Run the suites.
    Run,
    /// Show how the program is used.
    Usage,
}

/// What the program is asked to do: the first argument behind its own name says it, and without
/// one the suites are run.
pub open spec fn task_of(args: Seq<Seq<char>>) -> Task {
    if args.len() <= 1 || args[1] == "run"@ {
        Task::Run
    } else if args[1] == "list"@ {
        Task::List
    } else {
        Task::Usage
    }
}

/// What the program is asked to do.
pub fn task(args: &[String]) -> (r: Task)
    ensures
        r == task_of(command::texts(args@)),
{
    if args.len() <= 1 || args[1] == "run".to_owned() {
        Task::Run
    } else if args[1] == "list".to_owned() {
        Task::List
    } else {
        Task::Usage
    }
}

/// Whether the output is to be JSON.
pub fn wants_json(args: &[String]) -> (r: bool)
    ensures
        r == command::texts(args@).contains("--json"@),
{
    has_flag(args, "--json")
}

/// The path of the configuration: the value of `--config`, else that of `$CE_TEST_CONFIG`, else
/// `cetest.toml`.
pub open spec fn config_path_of(args: Seq<Seq<char>>, configured: Option<Seq<char>>) -> Seq<char> {
    match flag_value(args, "--config"@) {
        Some(path) => path,
        None => match configured {
            Some(path) => path,
            None => "cetest.toml"@,
        },
    }
}

/// The filters and the placement that the arguments ask for, given the root.
pub open spec fn are_opts_of(args: Seq<Seq<char>>, root: Seq<char>, opts: RunOpts) -> bool {
    &&& text::opt(opts.only) == flag_value(args, "--suite"@)
    &&& text::opt(opts.tier) == flag_value(args, "--tier"@)
    &&& text::opt(opts.on) == flag_value(args, "--on"@)
    &&& opts.root@ == root
    &&& opts.capture == args.contains("--json"@)
}

/// The path of the configuration, given the value of `$CE_TEST_CONFIG`.
pub fn config_path(args: &[String], configured: Option<String>) -> (r: String)
    ensures
        r@ == config_path_of(command::texts(args@), text::opt(configured)),
{
    match flag(args, "--config") {
        Some(path) => path,
        None => Config::default_path(configured),
    }
}

/// The filters and the placement that the arguments ask for. The output is captured where the
/// report is to be JSON, so that nothing else is written to the standard output.
pub fn run_opts(args: &[String], root: String) -> (r: RunOpts)
    ensures
        text::opt(r.only) == flag_value(command::texts(args@), "--suite"@),
        text::opt(r.tier) == flag_value(command::texts(args@), "--tier"@),
        text::opt(r.on) == flag_value(command::texts(args@), "--on"@),
        r.root@ == root@,
        r.capture == command::texts(args@).contains("--json"@),
        are_opts_of(command::texts(args@), root@, r),
{
    RunOpts {
        only: flag(args, "--suite"),
        tier: flag(args, "--tier"),
        on: flag(args, "--on"),
        root,
        capture: wants_json(args),
    }
}

/// What stands for an optional text: the text, or a stand-in.
pub open spec fn or_else(o: Option<Seq<char>>, other: Seq<char>) -> Seq<char> {
    match o {
        Some(s) => s,
        None => other,
    }
}

/// The tests that a suite runs: an integration test, or the unit tests.
pub open spec fn target_of(s: Suite) -> Seq<char> {
    match s.test {
        Some(test) => "--test "@ + test@,
        None => "unit"@,
    }
}

/// A suite as it is listed.
pub open spec fn listed(s: Suite) -> Seq<char> {
    "  "@ + text::padded(s.name@, 26) + " tier="@ + text::padded(
        or_else(text::opt(s.tier), "-"@),
        3,
    ) + " where="@ + text::padded(s.place(), 10) + " "@ + s.path@ + " ["@ + target_of(s) + "]"@
}

/// Shows one suite of the list.
pub fn list_line(s: &Suite) -> (r: String)
    ensures
        r@ == listed(*s),
{
    let tier: &str = match &s.tier {
        Some(tier) => tier.as_str(),
        None => "-",
    };
    let mut r: String = "  ".to_owned();
    r.append(text::pad_right(s.name.as_str(), 26).as_str());
    r.append(" tier=");
    r.append(text::pad_right(tier, 3).as_str());
    r.append(" where=");
    r.append(text::pad_right(s.location(), 10).as_str());
    r.append(" ");
    r.append(s.path.as_str());
    r.append(" [");
    let target: String = match &s.test {
        Some(test) => "--test ".to_owned().concat(test.as_str()),
        None => "unit".to_owned(),
    };
    r.append(target.as_str());
    r.append("]");
    r
}

/// The head of the list.
pub open spec fn listed_head(path: Seq<char>, cfg: Config) -> Seq<char> {
    "suites in "@ + path + " ("@ + text::digits(cfg.suites@.len()) + "):"@
}

/// Shows the head of the list.
pub fn list_head(path: &str, cfg: &Config) -> (r: String)
    ensures
        r@ == "suites in "@ + path@ + " ("@ + text::digits(cfg.suites@.len()) + "):"@,
        r@ == listed_head(path@, *cfg),
{
    let mut r: String = "suites in ".to_owned();
    r.append(path);
    r.append(" (");
    r.append(text::unsigned(cfg.suites.len() as u64).as_str());
    r.append("):");
    r
}

/// A suite of the list as a document. What the suite does not say is `null`, but for its place.
pub open spec fn suite_document(s: Suite) -> json::Tree {
    json::Tree::Object(
        json::no_members().insert("name"@, json::Tree::Text(s.name@)).insert(
            "tier"@,
            json::text_or_null(text::opt(s.tier)),
        ).insert("where"@, json::Tree::Text(s.place())).insert(
            "path"@,
            json::Tree::Text(s.path@),
        ).insert("test"@, json::text_or_null(text::opt(s.test))),
    )
}

/// The list as a document: `{ "suites": [...] }`.
pub open spec fn list_document(cfg: Config) -> json::Tree {
    json::Tree::Object(
        json::no_members().insert(
            "suites"@,
            json::Tree::Array(cfg.suites@.map_values(|s: Suite| suite_document(s))),
        ),
    )
}

/// The document of one suite.
fn suite_json(s: &Suite) -> (v: Value)
    ensures
        json::tree(v) == suite_document(*s),
{
    let mut m = serde_json::Map::new();
    m.insert("name".to_owned(), json::text(s.name.as_str()));
    m.insert("tier".to_owned(), json::optional(&s.tier));
    m.insert("where".to_owned(), json::text(s.location()));
    m.insert("path".to_owned(), json::text(s.path.as_str()));
    m.insert("test".to_owned(), json::optional(&s.test));
    json::object(m)
}

/// The list of the suites as a document.
pub fn list_json(cfg: &Config) -> (v: Value)
    ensures
        json::tree(v) == list_document(*cfg),
{
    let mut suites: Vec<Value> = Vec::new();
    let mut i: usize = 0;
    while i < cfg.suites.len()
        invariant
            i <= cfg.suites@.len(),
            suites@.len() == i,
            forall|k: int|
                0 <= k < i ==> json::tree(#[trigger] suites@[k]) == suite_document(cfg.suites@[k]),
        decreases cfg.suites@.len() - i,
    {
        suites.push(suite_json(&cfg.suites[i]));
        i = i + 1;
    }
    proof {
        assert(json::trees(suites@) =~= cfg.suites@.map_values(|s: Suite| suite_document(s)));
    }
    let mut m = serde_json::Map::new();
    m.insert("suites".to_owned(), json::array(suites));
    json::object(m)
}

/// The word for a result.
pub open spec fn tag_of(r: ResultView) -> Seq<char> {
    if r.skipped {
        "SKIP"@
    } else if r.passed {
        "PASS"@
    } else {
        "FAIL"@
    }
}

/// The word for a result.
pub fn tag(result: &SuiteResult) -> (r: &'static str)
    ensures
        r@ == tag_of(result@),
{
    if result.skipped {
        "SKIP"
    } else if result.passed {
        "PASS"
    } else {
        "FAIL"
    }
}

/// A result as it is shown, given how its seconds are.
pub open spec fn shown_result(r: ResultView, secs: Seq<char>) -> Seq<char> {
    "  ["@ + tag_of(r) + "] "@ + text::padded(r.name, 26) + " "@ + secs + "s"@ + (if r.note.len()
        == 0 {
        seq![]
    } else {
        "  ("@ + r.note + ")"@
    })
}

/// Shows one result, given how its seconds are shown.
pub fn result_line(result: &SuiteResult, secs: &str) -> (r: String)
    ensures
        r@ == shown_result(result@, secs@),
{
    let mut r: String = "  [".to_owned();
    r.append(tag(result));
    r.append("] ");
    r.append(text::pad_right(result.name.as_str(), 26).as_str());
    r.append(" ");
    r.append(secs);
    r.append("s");
    if !result.note.as_str().is_empty() {
        let mut note: String = "  (".to_owned();
        note.append(result.note.as_str());
        note.append(")");
        r.append(note.as_str());
    }
    proof {
        assert(r@ =~= shown_result(result@, secs@));
    }
    r
}

/// The counts of a report as they are shown.
pub open spec fn shown_summary(results: Seq<ResultView>) -> Seq<char> {
    text::digits(results.len()) + " suites: "@ + text::digits(report::passes(results))
        + " passed, "@ + text::digits(report::failures(results)) + " failed, "@ + text::digits(
        report::skips(results),
    ) + " skipped"@
}

/// Shows the counts of a report.
pub fn summary_line(report: &Report) -> (r: String)
    ensures
        r@ == shown_summary(report@),
{
    let mut r: String = text::unsigned(report.results.len() as u64);
    r.append(" suites: ");
    r.append(text::unsigned(report.passed() as u64).as_str());
    r.append(" passed, ");
    r.append(text::unsigned(report.failed() as u64).as_str());
    r.append(" failed, ");
    r.append(text::unsigned(report.skipped() as u64).as_str());
    r.append(" skipped");
    r
}

/// The status that the program ends with after a run.
pub open spec fn status_of(results: Seq<ResultView>) -> int {
    if report::failures(results) > 0 {
        1
    } else {
        0
    }
}

/// The status that the program ends with after a run: 1 where a suite failed, else 0.
pub fn exit_status(report: &Report) -> (r: i32)
    ensures
        r == if report::failures(report@) > 0 {
            1int
        } else {
            0int
        },
        r == status_of(report@),
{
    if report.failed() > 0 {
        1
    } else {
        0
    }
}

/// How the program is used.
pub fn usage() -> (r: &'static str)
    ensures
        r@
            == "usage: ce-test [run|list] [--config cetest.toml] [--suite NAME] [--tier T1|T2|T3] [--on <target>] [--json]"@,
{
    "usage: ce-test [run|list] [--config cetest.toml] [--suite NAME] [--tier T1|T2|T3] [--on <target>] [--json]"
}

/// The status of a run does not hide a failure: it is zero just where no suite failed.
pub proof fn law_status_is_zero_without_failures(results: Seq<ResultView>)
    ensures
        (report::failures(results) == 0) == (forall|i: int|
            0 <= i < results.len() ==> tag_of(#[trigger] results[i]) != "FAIL"@),
{
    reveal_strlit("SKIP");
    reveal_strlit("PASS");
    reveal_strlit("FAIL");
    assert("SKIP"@[0] == 'S' && "PASS"@[0] == 'P' && "FAIL"@[0] == 'F');
    report::law_no_failures(results);
}

/// The status of a run is 1 or 0, and 0 just where every suite passed or was skipped.
pub proof fn law_status_of_a_run(results: Seq<ResultView>)
    ensures
        status_of(results) == 0 || status_of(results) == 1,
        status_of(results) == 0 <==> forall|i: int|
            0 <= i < results.len() ==> (#[trigger] results[i]).passed || results[i].skipped,
{
    report::law_no_failures(results);
}

/// A run ends with status 0 just where every selected suite that is to run here was there and its
/// tests succeeded, captured or not.
pub proof fn law_status_tells_whether_all_passed(
    cfg: Config,
    opts: RunOpts,
    dirs: Seq<Seq<char>>,
    world: spec_fn(int) -> laws::Trial,
)
    ensures
        status_of(
            laws::driven(
                cfg,
                opts,
                dirs,
                runner::started(cfg, opts).0,
                runner::started(cfg, opts).1,
                world,
            ),
        ) == 0 <==> forall|i: int|
            0 <= i < cfg.suites@.len() && opts.wants(#[trigger] cfg.suites@[i]) && opts.is_local(
                cfg.suites@[i],
            ) ==> world(i).exists && world(i).outcome is Exited && world(i).outcome->success,
{
    laws::law_run_fails_where_a_suite_fails(cfg, opts, dirs, world);
}

/// What is asked for: with no argument, or with `run`, a run; with `list`, the list; with anything
/// else, how the program is used. What follows does not matter.
pub proof fn law_task(args: Seq<Seq<char>>)
    ensures
        args.len() <= 1 ==> task_of(args) == Task::Run,
        args.len() > 1 && args[1] == "run"@ ==> task_of(args) == Task::Run,
        args.len() > 1 && args[1] == "list"@ ==> task_of(args) == Task::List,
        args.len() > 1 && args[1] != "run"@ && args[1] != "list"@ ==> task_of(args) == Task::Usage,
{
    reveal_strlit("run");
    reveal_strlit("list");
    assert("run"@.len() == 3 && "list"@.len() == 4);
}

/// A flag has the value that stands directly behind it, wherever it stands, as long as it does not
/// stand before that too; one that is not given, or that nothing follows, has none.
pub proof fn law_flag_has_what_stands_behind_it(
    before: Seq<Seq<char>>,
    name: Seq<char>,
    value: Seq<char>,
    after: Seq<Seq<char>>,
)
    requires
        !before.contains(name),
    ensures
        flag_value(before + seq![name, value] + after, name) == Some(value),
        flag_value(before + seq![name], name) is None,
        flag_value(before, name) is None,
{
    let at = before.len() as int;
    let args = before + seq![name, value] + after;
    assert forall|k: int| 0 <= k < at implies #[trigger] args[k] != name by {
        assert(args[k] == before[k]);
    }
    assert(args[at] == name && args[at + 1] == value);
    law_flag_value(args, name);
    let last = before + seq![name];
    assert forall|k: int| 0 <= k < at implies #[trigger] last[k] != name by {
        assert(last[k] == before[k]);
    }
    assert(last[at] == name);
    law_flag_value(last, name);
    law_flag_value(before, name);
}

/// The configuration is that of `--config` where one is given, whatever the environment says, else
/// that of the environment, else `cetest.toml`.
pub proof fn law_path_of_the_configuration(args: Seq<Seq<char>>, configured: Option<Seq<char>>)
    ensures
        flag_value(args, "--config"@) is Some ==> config_path_of(args, configured) == flag_value(
            args,
            "--config"@,
        )->0,
        flag_value(args, "--config"@) is None && configured is Some ==> config_path_of(
            args,
            configured,
        ) == configured->0,
        flag_value(args, "--config"@) is None && configured is None ==> config_path_of(
            args,
            configured,
        ) == "cetest.toml"@,
{
}

/// Each filter and the placement come from a flag of their own and are left open without it, and the
/// output is captured just where the report is to be JSON.
pub proof fn law_options_of_a_run(args: Seq<Seq<char>>, root: Seq<char>, opts: RunOpts)
    requires
        are_opts_of(args, root, opts),
    ensures
        opts.only is Some <==> flag_value(args, "--suite"@) is Some,
        opts.only is Some ==> opts.only->0@ == flag_value(args, "--suite"@)->0,
        opts.tier is Some <==> flag_value(args, "--tier"@) is Some,
        opts.tier is Some ==> opts.tier->0@ == flag_value(args, "--tier"@)->0,
        opts.on is Some <==> flag_value(args, "--on"@) is Some,
        opts.on is Some ==> opts.on->0@ == flag_value(args, "--on"@)->0,
        opts.root@ == root,
        opts.capture <==> exists|i: int| 0 <= i < args.len() && #[trigger] args[i] == "--json"@,
{
}

/// The word for a result: `SKIP` where the suite was skipped, else `PASS` where it passed, else
/// `FAIL`; the three are different words.
pub proof fn law_word_for_a_result(r: ResultView)
    ensures
        r.skipped ==> tag_of(r) == "SKIP"@,
        !r.skipped && r.passed ==> tag_of(r) == "PASS"@,
        !r.skipped && !r.passed ==> tag_of(r) == "FAIL"@,
        "SKIP"@ != "PASS"@ && "PASS"@ != "FAIL"@ && "FAIL"@ != "SKIP"@,
{
    reveal_strlit("SKIP");
    reveal_strlit("PASS");
    reveal_strlit("FAIL");
    assert("SKIP"@[0] == 'S' && "PASS"@[0] == 'P' && "FAIL"@[0] == 'F');
}

/// What a line of results shows, by its columns: the word for the result in brackets, the name, the
/// seconds and, just where there is a note, the note in brackets at the end.
pub proof fn law_columns_of_a_result(r: ResultView, secs: Seq<char>)
    ensures
        ({
            let line = shown_result(r, secs);
            let word = if r.skipped {
                "SKIP"@
            } else if r.passed {
                "PASS"@
            } else {
                "FAIL"@
            };
            let width: int = if r.name.len() < 26 {
                26
            } else {
                r.name.len() as int
            };
            let end = 10 + width + secs.len() + 1;
            &&& line.subrange(0, 3) == "  ["@
            &&& line.subrange(3, 7) == word
            &&& line.subrange(7, 9) == "] "@
            &&& line.subrange(9, 9int + r.name.len()) == r.name
            &&& forall|i: int| 9 + r.name.len() <= i < 10 + width ==> #[trigger] line[i] == ' '
            &&& line.subrange(10 + width, 10 + width + secs.len()) == secs
            &&& line[end - 1] == 's'
            &&& r.note.len() == 0 ==> line.len() == end
            &&& r.note.len() > 0 ==> line.subrange(end, line.len() as int) == "  ("@ + r.note + ")"@
        }),
{
    reveal_strlit("SKIP");
    reveal_strlit("PASS");
    reveal_strlit("FAIL");
    reveal_strlit("  [");
    reveal_strlit("] ");
    reveal_strlit(" ");
    reveal_strlit("s");
    text::law_padding(r.name, 26);
    let name = text::padded(r.name, 26);
    let width = name.len() as int;
    let line = shown_result(r, secs);
    let end = 10 + width + secs.len() + 1;
    assert(line.subrange(0, 3) =~= "  ["@);
    assert(line.subrange(3, 7) =~= tag_of(r));
    assert(line.subrange(7, 9) =~= "] "@);
    assert(line.subrange(9, 9 + width) =~= name);
    assert(line.subrange(9, 9int + r.name.len()) =~= name.subrange(0, r.name.len() as int));
    assert forall|i: int| 9 + r.name.len() <= i < 10 + width implies #[trigger] line[i] == ' ' by {
        if i < 9 + width {
            assert(line[i] == name[i - 9]);
        }
    }
    assert(line.subrange(10 + width, 10 + width + secs.len()) =~= secs);
    if r.note.len() > 0 {
        assert(line.subrange(end, line.len() as int) =~= "  ("@ + r.note + ")"@);
    }
}

/// What a line of the list shows, by its columns: the name, the tier or `-`, the place or `local`,
/// the path, and in brackets the integration test or `unit`.
pub proof fn law_columns_of_a_suite(s: Suite)
    ensures
        ({
            let line = listed(s);
            let tier = if s.tier is Some {
                s.tier->0@
            } else {
                "-"@
            };
            let place = if s.location is Some {
                s.location->0@
            } else {
                "local"@
            };
            let tests = if s.test is Some {
                "--test "@ + s.test->0@
            } else {
                "unit"@
            };
            let a: int = if s.name@.len() < 26 {
                28
            } else {
                2int + s.name@.len()
            };
            let b: int = a + 6 + if tier.len() < 3 {
                3
            } else {
                tier.len() as int
            };
            let c: int = b + 7 + if place.len() < 10 {
                10
            } else {
                place.len() as int
            };
            let d = c + 1 + s.path@.len();
            &&& line.subrange(0, 2) == "  "@
            &&& line.subrange(2, 2int + s.name@.len()) == s.name@
            &&& forall|i: int| 2 + s.name@.len() <= i < a ==> #[trigger] line[i] == ' '
            &&& line.subrange(a, a + 6) == " tier="@
            &&& line.subrange(a + 6, a + 6 + tier.len()) == tier
            &&& forall|i: int| a + 6 + tier.len() <= i < b ==> #[trigger] line[i] == ' '
            &&& line.subrange(b, b + 7) == " where="@
            &&& line.subrange(b + 7, b + 7 + place.len()) == place
            &&& forall|i: int| b + 7 + place.len() <= i <= c ==> #[trigger] line[i] == ' '
            &&& line.subrange(c + 1, d) == s.path@
            &&& line.subrange(d, line.len() as int) == " ["@ + tests + "]"@
        }),
{
    reveal_strlit("  ");
    reveal_strlit(" ");
    reveal_strlit(" tier=");
    reveal_strlit(" where=");
    reveal_strlit(" [");
    reveal_strlit("]");
    let tier = or_else(text::opt(s.tier), "-"@);
    let place = s.place();
    text::law_padding(s.name@, 26);
    text::law_padding(tier, 3);
    text::law_padding(place, 10);
    let x = text::padded(s.name@, 26);
    let y = text::padded(tier, 3);
    let z = text::padded(place, 10);
    let a = 2 + x.len() as int;
    let b = a + 6 + y.len() as int;
    let c = b + 7 + z.len() as int;
    let d = c + 1 + s.path@.len();
    let line = listed(s);
    assert(line.subrange(0, 2) =~= "  "@);
    assert(line.subrange(2, a) =~= x);
    assert(line.subrange(2, 2int + s.name@.len()) =~= x.subrange(0, s.name@.len() as int));
    assert(forall|i: int| 2 <= i < a ==> #[trigger] line[i] == x[i - 2]);
    assert(line.subrange(a, a + 6) =~= " tier="@);
    assert(line.subrange(a + 6, b) =~= y);
    assert(line.subrange(a + 6, a + 6 + tier.len()) =~= y.subrange(0, tier.len() as int));
    assert(forall|i: int| a + 6 <= i < b ==> #[trigger] line[i] == y[i - a - 6]);
    assert(line.subrange(b, b + 7) =~= " where="@);
    assert(line.subrange(b + 7, c) =~= z);
    assert(line.subrange(b + 7, b + 7 + place.len()) =~= z.subrange(0, place.len() as int));
    assert(forall|i: int| b + 7 <= i < c ==> #[trigger] line[i] == z[i - b - 7]);
    assert(line.subrange(c + 1, d) =~= s.path@);
    assert(line.subrange(d, line.len() as int) =~= " ["@ + target_of(s) + "]"@);
}

/// The head of the list names the configuration and how many suites there are.
pub proof fn law_head_of_the_list(path: Seq<char>, cfg: Config)
    ensures
        ("suites in "@ + path).is_prefix_of(listed_head(path, cfg)),
        (" ("@ + text::digits(cfg.suites@.len()) + "):"@).is_suffix_of(listed_head(path, cfg)),
        listed_head(path, cfg).len() == ("suites in "@ + path).len() + (" ("@ + text::digits(
            cfg.suites@.len(),
        ) + "):"@).len(),
{
    let line = listed_head(path, cfg);
    let start = "suites in "@ + path;
    let end = " ("@ + text::digits(cfg.suites@.len()) + "):"@;
    assert(line =~= start + end);
    assert(start =~= line.subrange(0, start.len() as int));
    assert(end =~= line.subrange(start.len() as int, line.len() as int));
}

/// The line of counts shows how many suites there are, passed, failed and were skipped, in this
/// order.
pub proof fn law_line_of_counts(results: Seq<ResultView>)
    ensures
        shown_summary(results) == text::joined(
            seq![
                text::digits(results.len()) + " suites: "@ + text::digits(
                    report::passes(results),
                ) + " passed"@,
                text::digits(report::failures(results)) + " failed"@,
                text::digits(report::skips(results)) + " skipped"@,
            ],
            ", "@,
        ),
{
    reveal_strlit(" passed");
    reveal_strlit(" passed, ");
    reveal_strlit(" failed");
    reveal_strlit(" failed, ");
    reveal_strlit(", ");
    let x = text::digits(results.len()) + " suites: "@ + text::digits(report::passes(results))
        + " passed"@;
    let y = text::digits(report::failures(results)) + " failed"@;
    let z = text::digits(report::skips(results)) + " skipped"@;
    assert(seq![x, y, z].drop_last() =~= seq![x, y]);
    assert(seq![x, y].drop_last() =~= seq![x]);
    reveal_with_fuel(text::joined, 3);
    assert(" passed, "@ =~= " passed"@ + ", "@);
    assert(" failed, "@ =~= " failed"@ + ", "@);
    assert(text::joined(seq![x, y, z], ", "@) == x + ", "@ + y + ", "@ + z);
    assert(shown_summary(results) =~= x + ", "@ + y + ", "@ + z);
}

/// What a tool reads of a suite in the list: its name, its place or `local`, and its path, and its
/// tier and its test or `null`. There is nothing else.
pub proof fn law_document_of_a_suite(s: Suite, key: Seq<char>)
    ensures
        suite_document(s) is Object,
        suite_document(s)->Object_0.contains_key(key) <==> key == "name"@ || key == "tier"@ || key
            == "where"@ || key == "path"@ || key == "test"@,
        suite_document(s).member("name"@) == json::Tree::Text(s.name@),
        s.tier is Some ==> suite_document(s).member("tier"@) == json::Tree::Text(s.tier->0@),
        s.tier is None ==> suite_document(s).member("tier"@) == json::Tree::Null,
        s.location is Some ==> suite_document(s).member("where"@) == json::Tree::Text(
            s.location->0@,
        ),
        s.location is None ==> suite_document(s).member("where"@) == json::Tree::Text("local"@),
        suite_document(s).member("path"@) == json::Tree::Text(s.path@),
        s.test is Some ==> suite_document(s).member("test"@) == json::Tree::Text(s.test->0@),
        s.test is None ==> suite_document(s).member("test"@) == json::Tree::Null,
{
    reveal_strlit("name");
    reveal_strlit("tier");
    reveal_strlit("where");
    reveal_strlit("path");
    reveal_strlit("test");
    assert("where"@.len() == 5 && "name"@.len() == 4 && "tier"@.len() == 4);
    assert("path"@.len() == 4 && "test"@.len() == 4);
    assert("name"@[0] == 'n' && "tier"@[1] == 'i' && "path"@[0] == 'p' && "test"@[1] == 'e');
    assert("tier"@[0] == 't' && "test"@[0] == 't');
}

/// The document of the list holds the document of every suite, selected or not, in the order of the
/// configuration, and nothing else.
pub proof fn law_document_of_the_list(cfg: Config, i: int, key: Seq<char>)
    ensures
        list_document(cfg) is Object,
        list_document(cfg)->Object_0.contains_key(key) <==> key == "suites"@,
        list_document(cfg).member("suites"@) is Array,
        list_document(cfg).member("suites"@)->Array_0.len() == cfg.suites@.len(),
        0 <= i < cfg.suites@.len() ==> list_document(cfg).member("suites"@).item(i)
            == suite_document(cfg.suites@[i]),
{
}

} // verus!
