//! The runner: runs the suites that a configuration selects, one after the other, and reports.
//!
//! Where a suite runs is decided by its `where`, not by the test. A `local` suite runs with
//! `cargo test` here. Any other suite belongs on the mesh, which cannot run it yet: it is reported
//! as skipped, with the reason, and is never run here instead.
//!
//! [`Run`] makes the decisions. It names the next [`Action`]; whoever drives it performs the
//! action and hands back the [`Event`].

use crate::command;
use crate::command::{Command, CommandView, Output};
use crate::config::{Config, Suite};
use crate::local;
use crate::local::Outcome;
use crate::paths;
use crate::report;
use crate::report::{Report, ResultView, SuiteResult};
use crate::text;
use vstd::prelude::*;
use vstd::string::*;

verus! {

/// Filters and placement for a run.
#[derive(Debug, Clone)]
pub struct RunOpts {
    /// Only the suite with this name.
    pub only: Option<String>,
    /// Only the suites of this tier.
    pub tier: Option<String>,
    /// Overrides every suite's `where`.
    pub on: Option<String>,
    /// The directory of the configuration, which suite paths are resolved against.
    pub root: String,
    /// Capture the output of what is run instead of showing it. The standard output then stays
    /// free for the report, and the note on a failure quotes the end of the output.
    pub capture: bool,
}

impl Default for RunOpts {
    fn default() -> (r: Self)
        ensures
            r.only is None,
            r.tier is None,
            r.on is None,
            r.root@ == Seq::<char>::empty(),
            !r.capture,
    {
        RunOpts { only: None, tier: None, on: None, root: String::new(), capture: false }
    }
}

impl RunOpts {
    /// A suite is selected: it has the name that is asked for, if one is, and the tier that is
    /// asked for, if one is.
    pub open spec fn wants(self, s: Suite) -> bool {
        &&& self.only matches Some(name) ==> s.name@ == name@
        &&& self.tier matches Some(tier) ==> text::opt(s.tier) == Some(tier@)
    }

    /// Where a suite is to run: where the run says or, where it says nothing, where the suite says.
    pub open spec fn place(self, s: Suite) -> Seq<char> {
        match self.on {
            Some(on) => on@,
            None => s.place(),
        }
    }

    /// A suite is to run here.
    pub open spec fn is_local(self, s: Suite) -> bool {
        self.place(s) == "local"@
    }

    /// Whether a suite is selected.
    pub fn selects(&self, s: &Suite) -> (r: bool)
        ensures
            r == self.wants(*s),
    {
        if let Some(only) = &self.only {
            if s.name != *only {
                return false;
            }
        }
        if let Some(tier) = &self.tier {
            match &s.tier {
                Some(has) => {
                    if *has != *tier {
                        return false;
                    }
                },
                None => {
                    return false;
                },
            }
        }
        true
    }

    /// Where a suite is to run.
    pub fn location<'a>(&'a self, s: &'a Suite) -> (r: &'a str)
        ensures
            r@ == self.place(*s),
    {
        match &self.on {
            Some(on) => on.as_str(),
            None => s.location(),
        }
    }

    /// Whether a suite is to run here.
    fn runs_here(&self, s: &Suite) -> (r: bool)
        ensures
            r == self.is_local(*s),
    {
        self.location(s).to_owned() == "local".to_owned()
    }
}

/// The note on a suite that does not run here.
pub open spec fn skip_note(place: Seq<char>) -> Seq<char> {
    "where="@ + place
        + ": distributed execution over the mesh is pending the p2p artifact path (fetch-by-CID); not run local silently"@
}

/// The result of a suite that does not run here.
pub open spec fn skip_result(opts: RunOpts, s: Suite) -> ResultView {
    ResultView {
        name: s.name@,
        tier: text::opt(s.tier),
        passed: false,
        skipped: true,
        nanos: 0,
        note: skip_note(opts.place(s)),
    }
}

/// The result of a suite whose directory is not there.
pub open spec fn missing_result(s: Suite, dir: Seq<char>, nanos: u64) -> ResultView {
    ResultView {
        name: s.name@,
        tier: text::opt(s.tier),
        passed: false,
        skipped: false,
        nanos,
        note: local::missing_note(dir),
    }
}

/// The result of a suite whose tests were run.
pub open spec fn tested_result(opts: RunOpts, s: Suite, outcome: Outcome, nanos: u64) -> ResultView {
    ResultView {
        name: s.name@,
        tier: text::opt(s.tier),
        passed: local::verdict_of(outcome, opts.capture).0,
        skipped: false,
        nanos,
        note: local::verdict_of(outcome, opts.capture).1,
    }
}

/// Reports a suite that does not run here.
fn skip(opts: &RunOpts, s: &Suite) -> (r: SuiteResult)
    ensures
        r@ == skip_result(*opts, *s),
{
    let mut note: String = "where=".to_owned();
    note.append(opts.location(s));
    note.append(
        ": distributed execution over the mesh is pending the p2p artifact path (fetch-by-CID); not run local silently",
    );
    SuiteResult {
        name: s.name.clone(),
        tier: s.tier.clone(),
        passed: false,
        skipped: true,
        nanos: 0,
        note,
    }
}

/// Reports a suite whose directory is not there.
fn missing(s: &Suite, dir: &str, nanos: u64) -> (r: SuiteResult)
    ensures
        r@ == missing_result(*s, dir@, nanos),
{
    let mut note: String = "path not found: ".to_owned();
    note.append(dir);
    SuiteResult {
        name: s.name.clone(),
        tier: s.tier.clone(),
        passed: false,
        skipped: false,
        nanos,
        note,
    }
}

/// Reports a suite whose tests were run.
fn tested(opts: &RunOpts, s: &Suite, outcome: &Outcome, nanos: u64) -> (r: SuiteResult)
    ensures
        r@ == tested_result(*opts, *s, *outcome, nanos),
{
    let (passed, note) = local::verdict(outcome, opts.capture);
    SuiteResult {
        name: s.name.clone(),
        tier: s.tier.clone(),
        passed,
        skipped: false,
        nanos,
        note,
    }
}

/// What a run asks for next.
#[derive(Debug)]
pub enum Action {
    /// Run this to link the repositories of the workspace; how it ends does not matter.
    Link(Command),
    /// Find out whether the directory of a suite is there.
    Probe {
        /// The place of the suite in the configuration.
        suite: usize,
        /// Its directory.
        dir: String,
    },
    /// Run the tests of a suite.
    Test {
        /// The place of the suite in the configuration.
        suite: usize,
        /// The command that runs them.
        command: Command,
    },
    /// Nothing: the report is complete.
    Finish,
}

/// An [`Action`] as a mathematical value.
pub enum ActionView {
    /// Link the repositories of the workspace.
    Link(CommandView),
    /// Find out whether the directory of a suite is there.
    Probe {
        /// The place of the suite in the configuration.
        suite: int,
        /// Its directory.
        dir: Seq<char>,
    },
    /// Run the tests of a suite.
    Test {
        /// The place of the suite in the configuration.
        suite: int,
        /// The command that runs them.
        command: CommandView,
    },
    /// Nothing.
    Finish,
}

impl View for Action {
    type V = ActionView;

    open spec fn view(&self) -> ActionView {
        match self {
            Action::Link(c) => ActionView::Link(c@),
            Action::Probe { suite, dir } => ActionView::Probe { suite: *suite as int, dir: dir@ },
            Action::Test { suite, command } => ActionView::Test {
                suite: *suite as int,
                command: command@,
            },
            Action::Finish => ActionView::Finish,
        }
    }
}

/// What came of an [`Action`].
#[derive(Debug)]
pub enum Event {
    /// The repositories were linked, or not.
    Linked,
    /// Whether the directory is there, and how long the suite has taken.
    Probed {
        /// Whether the directory is there.
        exists: bool,
        /// How long the suite has taken, in nanoseconds.
        nanos: u64,
    },
    /// How the tests ended, and how long the suite has taken.
    Tested {
        /// How the tests ended.
        outcome: Outcome,
        /// How long the suite has taken, in nanoseconds.
        nanos: u64,
    },
}

/// How far a run has come. A number is the place of a suite in the configuration.
pub enum Stage {
    /// The repositories are to be linked.
    Link,
    /// It is to be found out whether the directory of this suite is there.
    Probe(int),
    /// The tests of this suite are to be run.
    Test(int),
    /// The report is complete.
    Done,
}

/// The first suite at or after `from` that is selected and runs here; the number of suites where
/// there is none.
pub open spec fn next_local(cfg: Config, opts: RunOpts, from: int) -> int
    decreases cfg.suites@.len() - from,
{
    if from >= cfg.suites@.len() {
        cfg.suites@.len() as int
    } else if opts.wants(cfg.suites@[from]) && opts.is_local(cfg.suites@[from]) {
        from
    } else {
        next_local(cfg, opts, from + 1)
    }
}

/// The results of the suites from `from` up to but not including `to`, none of which runs here:
/// those that are selected are skipped.
pub open spec fn skip_results(cfg: Config, opts: RunOpts, from: int, to: int) -> Seq<ResultView>
    decreases to - from,
{
    if from >= to {
        seq![]
    } else {
        let rest = skip_results(cfg, opts, from + 1, to);
        if opts.wants(cfg.suites@[from]) {
            seq![skip_result(opts, cfg.suites@[from])] + rest
        } else {
            rest
        }
    }
}

/// Goes on to the next suite that runs here, from `from` on, and skips those before it.
pub open spec fn settled(cfg: Config, opts: RunOpts, from: int, results: Seq<ResultView>) -> (
    Stage,
    Seq<ResultView>,
) {
    let at = next_local(cfg, opts, from);
    (
        if at < cfg.suites@.len() {
            Stage::Probe(at)
        } else {
            Stage::Done
        },
        results + skip_results(cfg, opts, from, at),
    )
}

/// How a run starts: with the linking where the defaults ask for it, else with the first suite.
pub open spec fn started(cfg: Config, opts: RunOpts) -> (Stage, Seq<ResultView>) {
    if cfg.defaults.dev_link == Some(true) {
        (Stage::Link, seq![])
    } else {
        settled(cfg, opts, 0, seq![])
    }
}

/// `dirs` are the directories of the suites, in the order of the configuration: their paths as seen
/// from the root.
pub open spec fn are_suite_dirs(cfg: Config, opts: RunOpts, dirs: Seq<Seq<char>>) -> bool {
    &&& dirs.len() == cfg.suites@.len()
    &&& forall|i: int|
        0 <= i < dirs.len() ==> paths::is_join(opts.root@, cfg.suites@[i].path@, #[trigger] dirs[i])
}

/// How a run goes on after an event, given the directories of the suites. An event that does not
/// answer the action changes nothing.
pub open spec fn advanced(
    cfg: Config,
    opts: RunOpts,
    dirs: Seq<Seq<char>>,
    stage: Stage,
    results: Seq<ResultView>,
    event: Event,
) -> (Stage, Seq<ResultView>) {
    match (stage, event) {
        (Stage::Link, Event::Linked) => settled(cfg, opts, 0, results),
        (Stage::Probe(i), Event::Probed { exists, nanos }) => if exists {
            (Stage::Test(i), results)
        } else {
            settled(
                cfg,
                opts,
                i + 1,
                results.push(missing_result(cfg.suites@[i], dirs[i], nanos)),
            )
        },
        (Stage::Test(i), Event::Tested { outcome, nanos }) => settled(
            cfg,
            opts,
            i + 1,
            results.push(tested_result(opts, cfg.suites@[i], outcome, nanos)),
        ),
        _ => (stage, results),
    }
}

/// The command that links the repositories of the workspace.
pub open spec fn link_command(opts: RunOpts) -> CommandView {
    CommandView {
        program: "tools/ce-dev-link"@,
        args: seq![],
        dir: Some(opts.root@),
        env: seq![],
        output: if opts.capture {
            Output::Muted
        } else {
            Output::Shown
        },
    }
}

/// What a run asks for at a stage, given the directories of the suites.
pub open spec fn action_at(
    cfg: Config,
    opts: RunOpts,
    dirs: Seq<Seq<char>>,
    stage: Stage,
) -> ActionView {
    match stage {
        Stage::Link => ActionView::Link(link_command(opts)),
        Stage::Probe(i) => ActionView::Probe { suite: i, dir: dirs[i] },
        Stage::Test(i) => ActionView::Test {
            suite: i,
            command: local::cargo_of(cfg, cfg.suites@[i], dirs[i], opts.capture),
        },
        Stage::Done => ActionView::Finish,
    }
}

/// A stage that a run can be at: the suite it is about is in the configuration, is selected and
/// runs here.
pub open spec fn is_stage(cfg: Config, opts: RunOpts, stage: Stage) -> bool {
    match stage {
        Stage::Probe(i) | Stage::Test(i) => {
            &&& 0 <= i < cfg.suites@.len()
            &&& opts.wants(cfg.suites@[i])
            &&& opts.is_local(cfg.suites@[i])
        },
        _ => true,
    }
}

/// Where the next suite that runs here is found.
pub(crate) proof fn lemma_next_local(cfg: Config, opts: RunOpts, from: int)
    requires
        0 <= from <= cfg.suites@.len(),
    ensures
        from <= next_local(cfg, opts, from) <= cfg.suites@.len(),
        next_local(cfg, opts, from) < cfg.suites@.len() ==> is_stage(
            cfg,
            opts,
            Stage::Probe(next_local(cfg, opts, from)),
        ),
        forall|i: int|
            from <= i < next_local(cfg, opts, from) ==> !(opts.wants(#[trigger] cfg.suites@[i])
                && opts.is_local(cfg.suites@[i])),
    decreases cfg.suites@.len() - from,
{
    if from < cfg.suites@.len() && !(opts.wants(cfg.suites@[from]) && opts.is_local(
        cfg.suites@[from],
    )) {
        lemma_next_local(cfg, opts, from + 1);
    }
}

/// How far a [`Run`] has come.
#[derive(Debug, Clone, Copy)]
enum Position {
    Link,
    Probe(usize),
    Test(usize),
    Done,
}

/// A run of the selected suites.
#[derive(Debug)]
pub struct Run<'a> {
    cfg: &'a Config,
    opts: &'a RunOpts,
    dirs: Vec<String>,
    position: Position,
    results: Vec<SuiteResult>,
}

impl<'a> Run<'a> {
    /// The configuration.
    pub closed spec fn config(self) -> Config {
        *self.cfg
    }

    /// The filters and the placement.
    pub closed spec fn options(self) -> RunOpts {
        *self.opts
    }

    /// The directories of the suites, in the order of the configuration.
    pub closed spec fn dirs(self) -> Seq<Seq<char>> {
        command::texts(self.dirs@)
    }

    /// How far the run has come.
    pub closed spec fn stage(self) -> Stage {
        match self.position {
            Position::Link => Stage::Link,
            Position::Probe(i) => Stage::Probe(i as int),
            Position::Test(i) => Stage::Test(i as int),
            Position::Done => Stage::Done,
        }
    }

    /// The results so far.
    pub closed spec fn results(self) -> Seq<ResultView> {
        report::views(self.results@)
    }

    /// A run is well formed: each suite has a directory, the run is at a stage that a run can be
    /// at, and its results are sound.
    pub open spec fn wf(self) -> bool {
        &&& self.dirs().len() == self.config().suites@.len()
        &&& is_stage(self.config(), self.options(), self.stage())
        &&& report::is_sound(self.results())
    }

    /// Goes on to the next suite that runs here, and skips those before it.
    fn settle(&mut self, from: usize)
        requires
            report::is_sound(old(self).results()),
            old(self).dirs().len() == old(self).config().suites@.len(),
            from <= old(self).config().suites@.len(),
        ensures
            final(self).config() == old(self).config(),
            final(self).options() == old(self).options(),
            final(self).dirs() == old(self).dirs(),
            (final(self).stage(), final(self).results()) == settled(
                old(self).config(),
                old(self).options(),
                from as int,
                old(self).results(),
            ),
            final(self).wf(),
    {
        let ghost cfg = *self.cfg;
        let ghost opts = *self.opts;
        let ghost before = self.results();
        let ghost at = next_local(cfg, opts, from as int);
        let mut i: usize = from;
        proof {
            lemma_next_local(cfg, opts, from as int);
            assert(before + skip_results(cfg, opts, i as int, at) =~= self.results()
                + skip_results(cfg, opts, i as int, at));
        }
        while i < self.cfg.suites.len()
            invariant
                *self.cfg == cfg,
                *self.opts == opts,
                cfg == old(self).config(),
                opts == old(self).options(),
                self.dirs() == old(self).dirs(),
                self.dirs().len() == cfg.suites@.len(),
                before == old(self).results(),
                i <= cfg.suites@.len(),
                at == next_local(cfg, opts, from as int),
                at == next_local(cfg, opts, i as int),
                at <= cfg.suites@.len(),
                before + skip_results(cfg, opts, from as int, at) == self.results()
                    + skip_results(cfg, opts, i as int, at),
                report::is_sound(self.results()),
            decreases cfg.suites@.len() - i,
        {
            let s: &Suite = &self.cfg.suites[i];
            if self.opts.selects(s) {
                if self.opts.runs_here(s) {
                    self.position = Position::Probe(i);
                    proof {
                        assert(self.results() =~= before + skip_results(cfg, opts, from as int, at));
                    }
                    return;
                }
                let ghost had = self.results();
                self.results.push(skip(self.opts, s));
                proof {
                    assert(self.results() =~= had.push(skip_result(opts, cfg.suites@[i as int])));
                }
            }
            proof {
                lemma_next_local(cfg, opts, i + 1);
                assert(before + skip_results(cfg, opts, from as int, at) =~= self.results()
                    + skip_results(cfg, opts, i + 1, at));
            }
            i = i + 1;
        }
        self.position = Position::Done;
        proof {
            assert(self.results() =~= before + skip_results(cfg, opts, from as int, at));
        }
    }

    /// Starts a run: with the linking where the defaults ask for it, else with the first suite.
    /// The paths of the suites are resolved against the root.
    pub fn begin(cfg: &'a Config, opts: &'a RunOpts) -> (r: Run<'a>)
        ensures
            r.wf(),
            r.config() == *cfg,
            r.options() == *opts,
            are_suite_dirs(*cfg, *opts, r.dirs()),
            (r.stage(), r.results()) == started(*cfg, *opts),
    {
        let mut dirs: Vec<String> = Vec::new();
        let mut i: usize = 0;
        while i < cfg.suites.len()
            invariant
                i <= cfg.suites@.len(),
                dirs@.len() == i,
                forall|k: int|
                    0 <= k < i ==> paths::is_join(
                        opts.root@,
                        cfg.suites@[k].path@,
                        (#[trigger] dirs@[k])@,
                    ),
            decreases cfg.suites@.len() - i,
        {
            dirs.push(paths::join(opts.root.as_str(), cfg.suites[i].path.as_str()));
            i = i + 1;
        }
        Run::with_dirs(cfg, opts, dirs)
    }

    /// Starts a run of suites whose directories are given, in the order of the configuration.
    pub fn with_dirs(cfg: &'a Config, opts: &'a RunOpts, dirs: Vec<String>) -> (r: Run<'a>)
        requires
            dirs@.len() == cfg.suites@.len(),
        ensures
            r.wf(),
            r.config() == *cfg,
            r.options() == *opts,
            r.dirs() == command::texts(dirs@),
            (r.stage(), r.results()) == started(*cfg, *opts),
    {
        let mut r = Run { cfg, opts, dirs, position: Position::Link, results: Vec::new() };
        proof {
            assert(r.results() =~= seq![]);
        }
        if !cfg.defaults.dev_link.unwrap_or(false) {
            r.settle(0);
        }
        r
    }

    /// What the run asks for next.
    pub fn action(&self) -> (r: Action)
        requires
            self.wf(),
        ensures
            r@ == action_at(self.config(), self.options(), self.dirs(), self.stage()),
    {
        match self.position {
            Position::Link => {
                let c = Command {
                    program: "tools/ce-dev-link".to_owned(),
                    args: Vec::new(),
                    dir: Some(self.opts.root.clone()),
                    env: Vec::new(),
                    output: if self.opts.capture {
                        Output::Muted
                    } else {
                        Output::Shown
                    },
                };
                proof {
                    assert(c@.args =~= seq![]);
                    assert(c@.env =~= seq![]);
                }
                Action::Link(c)
            },
            Position::Probe(i) => Action::Probe { suite: i, dir: self.dirs[i].clone() },
            Position::Test(i) => Action::Test {
                suite: i,
                command: local::cargo_command(
                    self.cfg,
                    &self.cfg.suites[i],
                    self.dirs[i].as_str(),
                    self.opts.capture,
                ),
            },
            Position::Done => Action::Finish,
        }
    }

    /// Adds a result.
    fn note(&mut self, result: SuiteResult)
        requires
            report::is_sound(old(self).results()),
            !(result.passed && result.skipped),
        ensures
            final(self).config() == old(self).config(),
            final(self).options() == old(self).options(),
            final(self).dirs() == old(self).dirs(),
            final(self).results() == old(self).results().push(result@),
            report::is_sound(final(self).results()),
    {
        self.results.push(result);
        proof {
            assert(self.results() =~= old(self).results().push(result@));
        }
    }

    /// Takes what came of the action. An event that does not answer it changes nothing.
    pub fn handle(&mut self, event: Event)
        requires
            old(self).wf(),
        ensures
            final(self).wf(),
            final(self).config() == old(self).config(),
            final(self).options() == old(self).options(),
            final(self).dirs() == old(self).dirs(),
            (final(self).stage(), final(self).results()) == advanced(
                old(self).config(),
                old(self).options(),
                old(self).dirs(),
                old(self).stage(),
                old(self).results(),
                event,
            ),
    {
        let total: usize = self.cfg.suites.len();
        proof {
            assert(total == self.config().suites@.len());
        }
        match (self.position, event) {
            (Position::Link, Event::Linked) => {
                self.settle(0);
            },
            (Position::Probe(i), Event::Probed { exists, nanos }) => {
                if exists {
                    self.position = Position::Test(i);
                } else {
                    let result: SuiteResult = missing(
                        &self.cfg.suites[i],
                        self.dirs[i].as_str(),
                        nanos,
                    );
                    self.note(result);
                    self.settle(i + 1);
                }
            },
            (Position::Test(i), Event::Tested { outcome, nanos }) => {
                let result: SuiteResult = tested(self.opts, &self.cfg.suites[i], &outcome, nanos);
                self.note(result);
                self.settle(i + 1);
            },
            _ => {},
        }
    }

    /// The report of the results so far, which is complete once the run asks for nothing more.
    pub fn into_report(self) -> (r: Report)
        ensures
            r@ == self.results(),
    {
        Report { results: self.results }
    }
}

/// A suite is selected just where it has the name that is asked for, or none is asked for, and has
/// the tier that is asked for, or none is asked for; a suite without a tier has none that is.
pub proof fn law_filters_select(opts: RunOpts, s: Suite)
    ensures
        opts.only is None && opts.tier is None ==> opts.wants(s),
        opts.only is Some && opts.only->0@ != s.name@ ==> !opts.wants(s),
        opts.tier is Some && s.tier is None ==> !opts.wants(s),
        opts.tier is Some && s.tier is Some && opts.tier->0@ != s.tier->0@ ==> !opts.wants(s),
        !opts.wants(s) ==> {
            ||| opts.only is Some && opts.only->0@ != s.name@
            ||| opts.tier is Some && (s.tier is None || opts.tier->0@ != s.tier->0@)
        },
{
}

/// The name and the tier filter apart from each other, and where and how a run runs filters nothing.
pub proof fn law_filters_are_independent(opts: RunOpts, other: RunOpts, s: Suite)
    ensures
        opts.wants(s) == ((RunOpts { tier: None, ..opts }).wants(s) && (RunOpts {
            only: None,
            ..opts
        }).wants(s)),
        opts.only == other.only && opts.tier == other.tier ==> opts.wants(s) == other.wants(s),
{
}

/// Where the run names no place, a suite runs here just where it has no place of its own or its
/// place is `local`. Where the run names one, every suite runs here just where that is `local`.
pub proof fn law_runs_here_just_where_local(opts: RunOpts, s: Suite)
    ensures
        opts.on is None ==> opts.is_local(s) == (s.location is None || s.location->0@ == "local"@),
        opts.on is Some ==> opts.is_local(s) == (opts.on->0@ == "local"@),
        opts.on is None && s.location is None ==> opts.place(s) == "local"@,
        opts.on is None && s.location is Some ==> opts.place(s) == s.location->0@,
        opts.on is Some ==> opts.place(s) == opts.on->0@,
{
}

/// A suite with a place on the mesh is not run here where the run names no place: no stage of a run
/// is about it.
pub proof fn law_mesh_suites_do_not_run_here(cfg: Config, opts: RunOpts, stage: Stage, i: int)
    requires
        is_stage(cfg, opts, stage),
        stage == Stage::Probe(i) || stage == Stage::Test(i),
        opts.on is None,
    ensures
        0 <= i < cfg.suites@.len(),
        cfg.suites@[i].location is None || cfg.suites@[i].location->0@ == "local"@,
        opts.only is None || opts.only->0@ == cfg.suites@[i].name@,
        opts.tier is None || (cfg.suites@[i].tier is Some && opts.tier->0@
            == cfg.suites@[i].tier->0@),
{
}

/// What a run asks for: the linking is the program `tools/ce-dev-link` at the root, and is kept off
/// our standard output just under capture; a suite is looked for in its own directory and tested
/// there; and when nothing is left, nothing is asked for.
pub proof fn law_actions_of_a_run(cfg: Config, opts: RunOpts, dirs: Seq<Seq<char>>, stage: Stage)
    ensures
        stage is Link ==> {
            &&& action_at(cfg, opts, dirs, stage) is Link
            &&& action_at(cfg, opts, dirs, stage)->Link_0.program == "tools/ce-dev-link"@
            &&& action_at(cfg, opts, dirs, stage)->Link_0.args.len() == 0
            &&& action_at(cfg, opts, dirs, stage)->Link_0.dir == Some(opts.root@)
            &&& action_at(cfg, opts, dirs, stage)->Link_0.env.len() == 0
            &&& opts.capture ==> action_at(cfg, opts, dirs, stage)->Link_0.output == Output::Muted
            &&& !opts.capture ==> action_at(cfg, opts, dirs, stage)->Link_0.output == Output::Shown
        },
        stage matches Stage::Probe(i) ==> action_at(cfg, opts, dirs, stage) == (ActionView::Probe {
            suite: i,
            dir: dirs[i],
        }),
        stage matches Stage::Test(i) ==> {
            &&& action_at(cfg, opts, dirs, stage) is Test
            &&& action_at(cfg, opts, dirs, stage)->Test_suite == i
            &&& action_at(cfg, opts, dirs, stage)->command.program == "cargo"@
            &&& action_at(cfg, opts, dirs, stage)->command.dir == Some(dirs[i])
            &&& action_at(cfg, opts, dirs, stage)->command.args == local::cargo_args_of(
                cfg,
                cfg.suites@[i],
            )
            &&& action_at(cfg, opts, dirs, stage)->command == local::cargo_of(
                cfg,
                cfg.suites@[i],
                dirs[i],
                opts.capture,
            )
        },
        stage is Done <==> action_at(cfg, opts, dirs, stage) is Finish,
{
}

/// The directory of a suite is its path as seen from the root: an absolute path itself; any other
/// begins with the root and ends with the path, where both are read the same way on every platform.
pub proof fn law_suites_have_their_directories(
    cfg: Config,
    opts: RunOpts,
    dirs: Seq<Seq<char>>,
    i: int,
)
    requires
        are_suite_dirs(cfg, opts, dirs),
        0 <= i < cfg.suites@.len(),
    ensures
        dirs.len() == cfg.suites@.len(),
        paths::is_join(opts.root@, cfg.suites@[i].path@, dirs[i]),
        paths::is_portable(opts.root@) && cfg.suites@[i].path@.len() > 0 && cfg.suites@[i].path@[0]
            == '/' ==> dirs[i] == cfg.suites@[i].path@,
        paths::is_portable(opts.root@) && paths::is_portable(cfg.suites@[i].path@) && !(
        cfg.suites@[i].path@.len() > 0 && cfg.suites@[i].path@[0] == '/')
            ==> opts.root@.is_prefix_of(dirs[i]) && cfg.suites@[i].path@.is_suffix_of(dirs[i]),
{
    let path = cfg.suites@[i].path@;
    let root = opts.root@;
    if paths::is_portable(root) && paths::is_portable(path) && !(path.len() > 0 && path[0] == '/') {
        assert(paths::is_behind(root, path, dirs[i]));
        assert(root =~= dirs[i].subrange(0, root.len() as int));
        assert(path =~= dirs[i].subrange(dirs[i].len() - path.len(), dirs[i].len() as int));
    }
}

/// An event that does not answer what was asked for changes nothing, and none changes a run that
/// is complete.
pub proof fn law_other_events_change_nothing(
    cfg: Config,
    opts: RunOpts,
    dirs: Seq<Seq<char>>,
    stage: Stage,
    results: Seq<ResultView>,
    event: Event,
)
    requires
        stage is Done || (stage is Link && event !is Linked) || (stage is Probe
            && event !is Probed) || (stage is Test && event !is Tested),
    ensures
        advanced(cfg, opts, dirs, stage, results, event).0 == stage,
        advanced(cfg, opts, dirs, stage, results, event).1 == results,
{
}

/// A suite whose directory is there is tested next, and nothing is reported on it before that.
pub proof fn law_a_suite_that_is_there_is_tested(
    cfg: Config,
    opts: RunOpts,
    dirs: Seq<Seq<char>>,
    i: int,
    results: Seq<ResultView>,
    nanos: u64,
)
    ensures
        ({
            let event = Event::Probed { exists: true, nanos };
            let next = advanced(cfg, opts, dirs, Stage::Probe(i), results, event);
            next.0 == Stage::Test(i) && next.1 == results
        }),
{
}

/// What is reported stays reported, and what becomes of a suite is reported directly behind it:
/// that it passed just where its tests ran and succeeded, with the time that it took.
pub proof fn law_what_became_of_a_suite_is_reported_next(
    cfg: Config,
    opts: RunOpts,
    dirs: Seq<Seq<char>>,
    i: int,
    results: Seq<ResultView>,
    outcome: Outcome,
    nanos: u64,
)
    ensures
        ({
            let event = Event::Tested { outcome, nanos };
            let after = advanced(cfg, opts, dirs, Stage::Test(i), results, event).1;
            let r = after[results.len() as int];
            &&& results.len() < after.len()
            &&& results.is_prefix_of(after)
            &&& r.name == cfg.suites@[i].name@
            &&& r.passed == (outcome is Exited && outcome->success)
            &&& (r.note.len() == 0) == (outcome is Exited && outcome->success)
            &&& !r.skipped
            &&& r.nanos == nanos
        }),
        ({
            let event = Event::Probed { exists: false, nanos };
            let after = advanced(cfg, opts, dirs, Stage::Probe(i), results, event).1;
            let r = after[results.len() as int];
            &&& results.len() < after.len()
            &&& results.is_prefix_of(after)
            &&& r.name == cfg.suites@[i].name@
            &&& !r.passed
            &&& !r.skipped
            &&& r.note == "path not found: "@ + dirs[i]
            &&& r.nanos == nanos
        }),
{
    local::law_success_alone_passes(outcome, opts.capture);
    let tested = advanced(
        cfg,
        opts,
        dirs,
        Stage::Test(i),
        results,
        Event::Tested { outcome, nanos },
    ).1;
    let missing = advanced(
        cfg,
        opts,
        dirs,
        Stage::Probe(i),
        results,
        Event::Probed { exists: false, nanos },
    ).1;
    assert(results =~= tested.subrange(0, results.len() as int));
    assert(results =~= missing.subrange(0, results.len() as int));
}

} // verus!
