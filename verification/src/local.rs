//! Running one suite here: the `cargo test` command of a suite, and what its end says of it.

use crate::command;
use crate::command::{Command, CommandView, Output};
use crate::config::{Config, Suite};
use crate::text;
use vstd::prelude::*;
use vstd::string::*;

verus! {

/// How a `cargo test` command ended.
#[derive(Debug)]
pub enum Outcome {
    /// It ran.
    Exited {
        /// Whether it reported success.
        success: bool,
        /// Its exit code, unless a signal ended it.
        code: Option<i32>,
        /// What was captured of its standard output.
        stdout: Vec<u8>,
        /// What was captured of its standard error.
        stderr: Vec<u8>,
    },
    /// It could not be started, for this reason.
    NotStarted(String),
}

/// How many lines of the output a note quotes.
pub const TAIL_LINES: usize = 12;

/// Whether a suite's ignored tests are run: the suite says so or, where it says nothing, the
/// defaults do.
pub open spec fn runs_ignored(cfg: Config, s: Suite) -> bool {
    match s.ignored {
        Some(ignored) => ignored,
        None => cfg.defaults.ignored == Some(true),
    }
}

/// The arguments of `cargo` for a suite.
pub open spec fn cargo_args_of(cfg: Config, s: Suite) -> Seq<Seq<char>> {
    seq!["test"@] + command::option_args("-p"@, text::opt(s.package)) + command::option_args("--test"@, text::opt(s.test))
        + command::option_args("--features"@, text::opt(s.features)) + seq!["--"@] + (if runs_ignored(cfg, s) {
        seq!["--ignored"@]
    } else {
        seq![]
    })
}

/// The variables set for `cargo` beside the inherited ones: `CE_BIN`, where the defaults name one.
pub open spec fn cargo_env_of(cfg: Config) -> Seq<(Seq<char>, Seq<char>)> {
    match cfg.defaults.ce_bin {
        Some(bin) => seq![("CE_BIN"@, bin@)],
        None => seq![],
    }
}

/// The command that runs a suite in the directory of its repository.
pub open spec fn cargo_of(cfg: Config, s: Suite, dir: Seq<char>, capture: bool) -> CommandView {
    CommandView {
        program: "cargo"@,
        args: cargo_args_of(cfg, s),
        dir: Some(dir),
        env: cargo_env_of(cfg),
        output: if capture {
            Output::Captured
        } else {
            Output::Shown
        },
    }
}

/// The arguments of `cargo` for a suite.
pub fn cargo_args(cfg: &Config, s: &Suite) -> (r: Vec<String>)
    ensures
        command::texts(r@) == cargo_args_of(*cfg, *s),
{
    let mut args: Vec<String> = Vec::new();
    command::push_arg(&mut args, "test");
    command::push_option(&mut args, "-p", &s.package);
    command::push_option(&mut args, "--test", &s.test);
    command::push_option(&mut args, "--features", &s.features);
    command::push_arg(&mut args, "--");
    let ignored: bool = match s.ignored {
        Some(ignored) => ignored,
        None => cfg.defaults.ignored.unwrap_or(false),
    };
    if ignored {
        command::push_arg(&mut args, "--ignored");
    }
    proof {
        assert(command::texts(args@) =~= cargo_args_of(*cfg, *s));
    }
    args
}

/// The command that runs a suite in the directory of its repository.
pub fn cargo_command(cfg: &Config, s: &Suite, dir: &str, capture: bool) -> (r: Command)
    ensures
        r@ == cargo_of(*cfg, *s, dir@, capture),
{
    let mut env: Vec<(String, String)> = Vec::new();
    if let Some(bin) = &cfg.defaults.ce_bin {
        env.push(("CE_BIN".to_owned(), bin.clone()));
    }
    proof {
        assert(command::pairs(env@) =~= cargo_env_of(*cfg));
    }
    Command {
        program: "cargo".to_owned(),
        args: cargo_args(cfg, s),
        dir: Some(dir.to_owned()),
        env,
        output: if capture {
            Output::Captured
        } else {
            Output::Shown
        },
    }
}

/// The exit code as it is shown; `-1` where a signal ended the command.
pub open spec fn shown_code(code: Option<i32>) -> Seq<char> {
    match code {
        Some(c) => text::numeral(c as int),
        None => text::numeral(-1),
    }
}

/// The note of a command that failed. Where its output was captured, the note ends in the last
/// lines of the output, standard error after standard output.
pub open spec fn failure_note(
    code: Option<i32>,
    captured: Option<(Seq<char>, Seq<char>)>,
) -> Seq<char> {
    let exited = "cargo test exited "@ + shown_code(code);
    match captured {
        Some((out, err)) => exited + ": "@ + text::joined(
            text::last_of(text::lines(out + err), TAIL_LINES as nat),
            " | "@,
        ),
        None => exited,
    }
}

/// Whether a suite passed, and the note on it, given how its command ended.
pub open spec fn verdict_of(outcome: Outcome, capture: bool) -> (bool, Seq<char>) {
    match outcome {
        Outcome::Exited { success, code, stdout, stderr } => if success {
            (true, seq![])
        } else {
            (
                false,
                failure_note(
                    code,
                    if capture {
                        Some((text::lossy(stdout@), text::lossy(stderr@)))
                    } else {
                        None
                    },
                ),
            )
        },
        Outcome::NotStarted(why) => (false, "spawn cargo failed: "@ + why@),
    }
}

/// Words the note of a command that failed, given the texts of its output and of its standard
/// error where they were captured.
pub fn exit_note(code: Option<i32>, captured: Option<(&str, &str)>) -> (r: String)
    ensures
        r@ == failure_note(
            code,
            match captured {
                Some((out, err)) => Some((out@, err@)),
                None => None,
            },
        ),
{
    let mut note: String = "cargo test exited ".to_owned();
    note.append(text::signed(code.unwrap_or(-1)).as_str());
    if let Some((out, err)) = captured {
        note.append(": ");
        let all: String = out.to_owned().concat(err);
        note.append(text::tail_line(all.as_str(), TAIL_LINES, " | ").as_str());
    }
    note
}

/// Decides whether a suite passed, and the note on it, given how its command ended.
pub fn verdict(outcome: &Outcome, capture: bool) -> (r: (bool, String))
    ensures
        (r.0, r.1@) == verdict_of(*outcome, capture),
        *outcome matches Outcome::Exited { success, code, stdout, stderr } ==> (!success && capture
            && vstd::utf8::valid_utf8(stdout@) && vstd::utf8::valid_utf8(stderr@) ==> r.1@
            == failure_note(
            code,
            Some((vstd::utf8::decode_utf8(stdout@), vstd::utf8::decode_utf8(stderr@))),
        )),
{
    match outcome {
        Outcome::Exited { success, code, stdout, stderr } => {
            if *success {
                return (true, String::new());
            }
            if capture {
                let out: String = text::from_utf8_lossy(stdout.as_slice());
                let err: String = text::from_utf8_lossy(stderr.as_slice());
                (false, exit_note(*code, Some((out.as_str(), err.as_str()))))
            } else {
                (false, exit_note(*code, None))
            }
        },
        Outcome::NotStarted(why) => {
            let mut note: String = "spawn cargo failed: ".to_owned();
            note.append(why.as_str());
            (false, note)
        },
    }
}

/// The note on a suite whose directory is not there.
pub open spec fn missing_note(dir: Seq<char>) -> Seq<char> {
    "path not found: "@ + dir
}

/// A suite fails with a reason: the note on a failure is not empty, and that on a success is.
pub proof fn law_failure_has_a_note(outcome: Outcome, capture: bool)
    ensures
        verdict_of(outcome, capture).0 == (verdict_of(outcome, capture).1.len() == 0),
{
    reveal_strlit("cargo test exited ");
    reveal_strlit("spawn cargo failed: ");
}

/// A suite passes just where its command ran and reported success, whether its output was captured
/// or not, and just then there is nothing to note.
pub proof fn law_success_alone_passes(outcome: Outcome, capture: bool)
    ensures
        verdict_of(outcome, capture).0 <==> outcome is Exited && outcome->success,
        verdict_of(outcome, capture).1.len() == 0 <==> outcome is Exited && outcome->success,
{
    reveal_strlit("cargo test exited ");
    reveal_strlit("spawn cargo failed: ");
}

/// The note on a failure says what happened: that the command could not be started, and why, or the
/// code that it exited with, which is -1 where a signal ended it. What was captured adds to that
/// what it wrote; where nothing was captured, what it wrote is not looked at.
pub proof fn law_note_says_what_happened(outcome: Outcome, capture: bool)
    ensures
        outcome matches Outcome::NotStarted(why) ==> verdict_of(outcome, capture).1
            == "spawn cargo failed: "@ + why@,
        outcome matches Outcome::Exited { success, code, stdout, stderr } ==> (!success ==> {
            let exited = "cargo test exited "@ + text::numeral(
                if code is Some {
                    code->0 as int
                } else {
                    -1
                },
            );
            let note = verdict_of(outcome, capture).1;
            &&& !capture ==> note == exited
            &&& capture ==> exited.is_prefix_of(note) && note == failure_note(
                code,
                Some((text::lossy(stdout@), text::lossy(stderr@))),
            )
        }),
{
    if let Outcome::Exited { success, code, stdout, stderr } = outcome {
        if !success && capture {
            let exited = "cargo test exited "@ + shown_code(code);
            let note = verdict_of(outcome, capture).1;
            assert(exited =~= note.subrange(0, exited.len() as int));
        }
    }
}

/// The note on a failure quotes the end of the output: where it has twelve lines or fewer, all of
/// them, one after the other with ` | ` between them, and where it has more, the note is the same as
/// without the lines before the last twelve. The standard error stands behind the standard output.
pub proof fn law_note_quotes_the_last_lines(
    code: Option<i32>,
    before: Seq<char>,
    end: Seq<char>,
    out: Seq<char>,
    err: Seq<char>,
)
    ensures
        text::lines(out + err).len() <= 12 ==> failure_note(code, Some((out, err)))
            == failure_note(code, None) + ": "@ + text::joined(text::lines(out + err), " | "@),
        before.len() > 0 && before.last() == '\n' && text::lines(end).len() == 12 && out + err
            == before + end ==> failure_note(code, Some((out, err))) == failure_note(
            code,
            Some((end, Seq::empty())),
        ),
        failure_note(code, Some((out, err))) == failure_note(
            code,
            Some((out + err, Seq::empty())),
        ),
{
    assert(out + err + Seq::empty() =~= out + err);
    assert(end + Seq::empty() =~= end);
    if before.len() > 0 && before.last() == '\n' && text::lines(end).len() == 12 && out + err
        == before + end {
        text::law_lines_of_two_texts(before, end);
        assert(text::last_of(text::lines(before + end), 12) =~= text::lines(end));
    }
}

/// Every option of a suite reaches `cargo`, whatever the others are: the arguments are `test`, and
/// then the package, the test and the features, each that the suite has behind its flag and in this
/// order, then `--`, and then `--ignored` where the ignored tests are run. There are no others.
pub proof fn law_every_option_reaches_cargo(cfg: Config, s: Suite)
    ensures
        ({
            let args = cargo_args_of(cfg, s);
            let ignored = s.ignored == Some(true) || (s.ignored is None && cfg.defaults.ignored
                == Some(true));
            let package: int = 1;
            let test = package + if s.package is Some { 2int } else { 0int };
            let features = test + if s.test is Some { 2int } else { 0int };
            let end = features + if s.features is Some { 2int } else { 0int };
            &&& args.len() == end + if ignored { 2int } else { 1int }
            &&& args[0] == "test"@
            &&& s.package is Some ==> args[package] == "-p"@ && args[package + 1] == s.package->0@
            &&& s.test is Some ==> args[test] == "--test"@ && args[test + 1] == s.test->0@
            &&& s.features is Some ==> args[features] == "--features"@ && args[features + 1]
                == s.features->0@
            &&& args[end] == "--"@
            &&& ignored ==> args[end + 1] == "--ignored"@
        }),
{
}

/// The arguments before `--` hold the flag of an option just where the suite has the option, unless
/// the value of another option reads like the flag.
pub proof fn law_no_option_reaches_cargo_unasked(cfg: Config, s: Suite, i: int)
    requires
        0 <= i < cargo_args_of(cfg, s).len(),
        s.package is Some ==> cargo_args_of(cfg, s)[i] != s.package->0@,
        s.test is Some ==> cargo_args_of(cfg, s)[i] != s.test->0@,
        s.features is Some ==> cargo_args_of(cfg, s)[i] != s.features->0@,
    ensures
        cargo_args_of(cfg, s)[i] == "-p"@ ==> s.package is Some && cargo_args_of(cfg, s)[i + 1]
            == s.package->0@,
        cargo_args_of(cfg, s)[i] == "--test"@ ==> s.test is Some && cargo_args_of(cfg, s)[i + 1]
            == s.test->0@,
        cargo_args_of(cfg, s)[i] == "--features"@ ==> s.features is Some && cargo_args_of(
            cfg,
            s,
        )[i + 1] == s.features->0@,
{
    reveal_strlit("test");
    reveal_strlit("-p");
    reveal_strlit("--test");
    reveal_strlit("--features");
    reveal_strlit("--");
    reveal_strlit("--ignored");
    assert("test"@.len() == 4 && "-p"@.len() == 2 && "--test"@.len() == 6);
    assert("--features"@.len() == 10 && "--"@.len() == 2 && "--ignored"@.len() == 9);
    assert("-p"@[1] == 'p' && "--"@[1] == '-');
}

/// A suite is run by `cargo` in its own directory, with `CE_BIN` set just where the defaults name a
/// program and to that program, and its output is captured just where that is asked for.
pub proof fn law_command_of_a_suite(cfg: Config, s: Suite, dir: Seq<char>, capture: bool)
    ensures
        ({
            let c = cargo_of(cfg, s, dir, capture);
            &&& c.program == "cargo"@
            &&& c.args == cargo_args_of(cfg, s)
            &&& c.dir == Some(dir)
            &&& capture ==> c.output == Output::Captured
            &&& !capture ==> c.output == Output::Shown
            &&& cfg.defaults.ce_bin is None ==> c.env.len() == 0
            &&& cfg.defaults.ce_bin is Some ==> c.env.len() == 1 && c.env[0].0 == "CE_BIN"@
                && c.env[0].1 == cfg.defaults.ce_bin->0@
        }),
{
}

/// Whether a suite's ignored tests are run is seen at the end of the arguments, and the suite's own
/// word on it goes before that of the defaults.
pub proof fn law_suite_decides_on_ignored_tests(cfg: Config, s: Suite)
    ensures
        cargo_args_of(cfg, s).last() == if runs_ignored(cfg, s) {
            "--ignored"@
        } else {
            "--"@
        },
        s.ignored is Some ==> runs_ignored(cfg, s) == s.ignored->0,
        s.ignored is None ==> runs_ignored(cfg, s) == (cfg.defaults.ignored == Some(true)),
{
}

/// Where a suite runs does not change what it runs: two suites that differ in their place alone
/// have the same command.
pub proof fn law_place_does_not_change_the_test(
    cfg: Config,
    s: Suite,
    t: Suite,
    dir: Seq<char>,
    capture: bool,
)
    requires
        t == (Suite { location: t.location, ..s }),
    ensures
        cargo_of(cfg, s, dir, capture) == cargo_of(cfg, t, dir, capture),
{
}

} // verus!
