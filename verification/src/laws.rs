//! What holds of a run as a whole, whatever the suites do.

use crate::command::Output;
use crate::config::{Config, Suite};
use crate::local;
use crate::local::Outcome;
use crate::report;
use crate::report::ResultView;
use crate::runner;
use crate::runner::{ActionView, Event, RunOpts, Stage};
use vstd::prelude::*;

verus! {

/// What becomes of one suite when it is run here.
pub struct Trial {
    /// Whether its directory is there.
    pub exists: bool,
    /// How its tests end.
    pub outcome: Outcome,
    /// How long it takes, in nanoseconds.
    pub nanos: u64,
}

/// The places of the selected suites among the first `n`, in the order of the configuration.
pub open spec fn selection(cfg: Config, opts: RunOpts, n: nat) -> Seq<int> {
    Seq::new(n, |i: int| i).filter(|i: int| opts.wants(cfg.suites@[i]))
}

/// The result of a selected suite: skipped where it does not run here, failed where its directory
/// is not there, else as its tests end.
pub open spec fn result_of(opts: RunOpts, s: Suite, dir: Seq<char>, trial: Trial) -> ResultView {
    if !opts.is_local(s) {
        runner::skip_result(opts, s)
    } else if !trial.exists {
        runner::missing_result(s, dir, trial.nanos)
    } else {
        runner::tested_result(opts, s, trial.outcome, trial.nanos)
    }
}

/// The results of the selected suites among the first `n`.
pub open spec fn expected(
    cfg: Config,
    opts: RunOpts,
    dirs: Seq<Seq<char>>,
    world: spec_fn(int) -> Trial,
    n: nat,
) -> Seq<ResultView> {
    selection(cfg, opts, n).map_values(|i: int| result_of(opts, cfg.suites@[i], dirs[i], world(i)))
}

/// What the world answers to the action of a stage.
pub open spec fn answer(stage: Stage, world: spec_fn(int) -> Trial) -> Event {
    match stage {
        Stage::Probe(i) => Event::Probed { exists: world(i).exists, nanos: world(i).nanos },
        Stage::Test(i) => Event::Tested { outcome: world(i).outcome, nanos: world(i).nanos },
        _ => Event::Linked,
    }
}

/// An event answers the action of a stage.
pub open spec fn answers(stage: Stage, event: Event) -> bool {
    match stage {
        Stage::Link => event is Linked,
        Stage::Probe(_) => event is Probed,
        Stage::Test(_) => event is Tested,
        Stage::Done => false,
    }
}

/// A bound on the number of actions that are left at a stage.
pub open spec fn work_left(cfg: Config, stage: Stage) -> nat {
    match stage {
        Stage::Link => 2 * cfg.suites@.len() + 1,
        Stage::Probe(i) => (2 * (cfg.suites@.len() - i)) as nat,
        Stage::Test(i) => (2 * (cfg.suites@.len() - i) - 1) as nat,
        Stage::Done => 0,
    }
}

/// The results that a run ends with, when every action is answered as the world has it.
pub open spec fn driven(
    cfg: Config,
    opts: RunOpts,
    dirs: Seq<Seq<char>>,
    stage: Stage,
    results: Seq<ResultView>,
    world: spec_fn(int) -> Trial,
) -> Seq<ResultView>
    decreases work_left(cfg, stage),
    when runner::is_stage(cfg, opts, stage)
    via driven_decreases
{
    match stage {
        Stage::Done => results,
        _ => {
            let next = runner::advanced(cfg, opts, dirs, stage, results, answer(stage, world));
            driven(cfg, opts, dirs, next.0, next.1, world)
        },
    }
}

#[via_fn]
proof fn driven_decreases(
    cfg: Config,
    opts: RunOpts,
    dirs: Seq<Seq<char>>,
    stage: Stage,
    results: Seq<ResultView>,
    world: spec_fn(int) -> Trial,
) {
    if stage !is Done {
        law_run_progresses(cfg, opts, dirs, stage, results, answer(stage, world));
    }
}

/// A run ends: each event that answers the action leaves less to do, and the run at a stage that a
/// run can be at.
pub proof fn law_run_progresses(
    cfg: Config,
    opts: RunOpts,
    dirs: Seq<Seq<char>>,
    stage: Stage,
    results: Seq<ResultView>,
    event: Event,
)
    requires
        runner::is_stage(cfg, opts, stage),
        answers(stage, event),
    ensures
        work_left(cfg, runner::advanced(cfg, opts, dirs, stage, results, event).0) < work_left(
            cfg,
            stage,
        ),
        runner::is_stage(cfg, opts, runner::advanced(cfg, opts, dirs, stage, results, event).0),
{
    match stage {
        Stage::Link => runner::lemma_next_local(cfg, opts, 0),
        Stage::Probe(i) | Stage::Test(i) => runner::lemma_next_local(cfg, opts, i + 1),
        Stage::Done => {},
    }
}

/// One suite more.
proof fn lemma_selection_next(cfg: Config, opts: RunOpts, n: nat)
    ensures
        selection(cfg, opts, n + 1) == if opts.wants(cfg.suites@[n as int]) {
            selection(cfg, opts, n).push(n as int)
        } else {
            selection(cfg, opts, n)
        },
{
    reveal(Seq::filter);
    let all = Seq::new(n + 1, |i: int| i);
    assert(all.drop_last() =~= Seq::new(n, |i: int| i));
    assert(all.last() == n);
}

/// One result more.
proof fn lemma_expected_next(
    cfg: Config,
    opts: RunOpts,
    dirs: Seq<Seq<char>>,
    world: spec_fn(int) -> Trial,
    n: nat,
)
    ensures
        expected(cfg, opts, dirs, world, n + 1) == if opts.wants(cfg.suites@[n as int]) {
            expected(cfg, opts, dirs, world, n).push(
                result_of(opts, cfg.suites@[n as int], dirs[n as int], world(n as int)),
            )
        } else {
            expected(cfg, opts, dirs, world, n)
        },
{
    lemma_selection_next(cfg, opts, n);
    assert(expected(cfg, opts, dirs, world, n + 1) =~= if opts.wants(cfg.suites@[n as int]) {
        expected(cfg, opts, dirs, world, n).push(
            result_of(opts, cfg.suites@[n as int], dirs[n as int], world(n as int)),
        )
    } else {
        expected(cfg, opts, dirs, world, n)
    });
}

/// The suites that are passed over on the way to the next one are those that are skipped.
proof fn lemma_passed_over(
    cfg: Config,
    opts: RunOpts,
    dirs: Seq<Seq<char>>,
    world: spec_fn(int) -> Trial,
    from: nat,
    to: nat,
)
    requires
        from <= to <= cfg.suites@.len(),
        forall|i: int|
            from <= i < to ==> !(opts.wants(#[trigger] cfg.suites@[i]) && opts.is_local(
                cfg.suites@[i],
            )),
    ensures
        expected(cfg, opts, dirs, world, to) == expected(cfg, opts, dirs, world, from)
            + runner::skip_results(cfg, opts, from as int, to as int),
    decreases to - from,
{
    if from < to {
        lemma_expected_next(cfg, opts, dirs, world, from);
        lemma_passed_over(cfg, opts, dirs, world, from + 1, to);
        assert(opts.wants(cfg.suites@[from as int]) ==> !opts.is_local(cfg.suites@[from as int]));
    }
    assert(expected(cfg, opts, dirs, world, to) =~= expected(cfg, opts, dirs, world, from)
        + runner::skip_results(cfg, opts, from as int, to as int));
}

/// The results at a stage are those of the suites before it.
spec fn on_track(
    cfg: Config,
    opts: RunOpts,
    dirs: Seq<Seq<char>>,
    stage: Stage,
    results: Seq<ResultView>,
    world: spec_fn(int) -> Trial,
) -> bool {
    match stage {
        Stage::Link => results == Seq::<ResultView>::empty(),
        Stage::Probe(i) => results == expected(cfg, opts, dirs, world, i as nat),
        Stage::Test(i) => world(i).exists && results == expected(cfg, opts, dirs, world, i as nat),
        Stage::Done => results == expected(cfg, opts, dirs, world, cfg.suites@.len()),
    }
}

/// Going on to the next suite keeps the results on track.
proof fn lemma_settled_on_track(
    cfg: Config,
    opts: RunOpts,
    dirs: Seq<Seq<char>>,
    from: nat,
    world: spec_fn(int) -> Trial,
)
    requires
        from <= cfg.suites@.len(),
    ensures
        ({
            let next = runner::settled(
                cfg,
                opts,
                from as int,
                expected(cfg, opts, dirs, world, from),
            );
            &&& on_track(cfg, opts, dirs, next.0, next.1, world)
            &&& runner::is_stage(cfg, opts, next.0)
        }),
{
    runner::lemma_next_local(cfg, opts, from as int);
    let to = runner::next_local(cfg, opts, from as int);
    lemma_passed_over(cfg, opts, dirs, world, from, to as nat);
}

/// A run that is on track ends with the expected results.
proof fn lemma_driven(
    cfg: Config,
    opts: RunOpts,
    dirs: Seq<Seq<char>>,
    stage: Stage,
    results: Seq<ResultView>,
    world: spec_fn(int) -> Trial,
)
    requires
        runner::is_stage(cfg, opts, stage),
        on_track(cfg, opts, dirs, stage, results, world),
    ensures
        driven(cfg, opts, dirs, stage, results, world) == expected(
            cfg,
            opts,
            dirs,
            world,
            cfg.suites@.len(),
        ),
    decreases work_left(cfg, stage),
{
    reveal(Seq::filter);
    match stage {
        Stage::Link => {
            assert(results =~= expected(cfg, opts, dirs, world, 0));
            lemma_settled_on_track(cfg, opts, dirs, 0, world);
        },
        Stage::Probe(i) | Stage::Test(i) => {
            lemma_expected_next(cfg, opts, dirs, world, i as nat);
            lemma_settled_on_track(cfg, opts, dirs, (i + 1) as nat, world);
        },
        Stage::Done => {},
    }
    if stage !is Done {
        let event = answer(stage, world);
        law_run_progresses(cfg, opts, dirs, stage, results, event);
        let next = runner::advanced(cfg, opts, dirs, stage, results, event);
        lemma_driven(cfg, opts, dirs, next.0, next.1, world);
    }
}

/// A run reports on every selected suite, once and in the order of the configuration: on one that
/// does not run here that it was skipped, on one that does what became of it.
pub proof fn law_run_reports_every_selected_suite(
    cfg: Config,
    opts: RunOpts,
    dirs: Seq<Seq<char>>,
    world: spec_fn(int) -> Trial,
)
    ensures
        driven(
            cfg,
            opts,
            dirs,
            runner::started(cfg, opts).0,
            runner::started(cfg, opts).1,
            world,
        ) == expected(cfg, opts, dirs, world, cfg.suites@.len()),
{
    reveal(Seq::filter);
    assert(expected(cfg, opts, dirs, world, 0) =~= Seq::<ResultView>::empty());
    lemma_settled_on_track(cfg, opts, dirs, 0, world);
    lemma_driven(
        cfg,
        opts,
        dirs,
        runner::started(cfg, opts).0,
        runner::started(cfg, opts).1,
        world,
    );
}

/// The selection holds the place of every selected suite, no other, and each once, in order.
pub proof fn law_selection(cfg: Config, opts: RunOpts, n: nat)
    ensures
        forall|k: int|
            0 <= k < selection(cfg, opts, n).len() ==> 0 <= #[trigger] selection(cfg, opts, n)[k] < n
                && opts.wants(cfg.suites@[selection(cfg, opts, n)[k]]),
        forall|i: int|
            0 <= i < n && opts.wants(#[trigger] cfg.suites@[i]) ==> selection(
                cfg,
                opts,
                n,
            ).contains(i),
        forall|a: int, b: int|
            0 <= a < b < selection(cfg, opts, n).len() ==> (#[trigger] selection(cfg, opts, n)[a])
                < (#[trigger] selection(cfg, opts, n)[b]),
    decreases n,
{
    reveal(Seq::filter);
    if n > 0 {
        let m = (n - 1) as nat;
        law_selection(cfg, opts, m);
        lemma_selection_next(cfg, opts, m);
        let had = selection(cfg, opts, m);
        let has = selection(cfg, opts, n);
        assert forall|i: int| 0 <= i < n && opts.wants(#[trigger] cfg.suites@[i]) implies has.contains(
            i,
        ) by {
            if i < m {
                let k = choose|k: int| 0 <= k < had.len() && had[k] == i;
                assert(has[k] == i);
            } else {
                assert(has[has.len() - 1] == i);
            }
        }
    }
}

/// A suite that does not run here is never run here silently: its result says that it was skipped
/// and where it belongs, and no other result says so.
pub proof fn law_skipped_just_where_elsewhere(
    opts: RunOpts,
    s: Suite,
    dir: Seq<char>,
    trial: Trial,
)
    ensures
        result_of(opts, s, dir, trial).skipped == !opts.is_local(s),
        !opts.is_local(s) ==> {
            &&& !result_of(opts, s, dir, trial).passed
            &&& result_of(opts, s, dir, trial).note == runner::skip_note(opts.place(s))
            &&& result_of(opts, s, dir, trial).nanos == 0
        },
{
}

/// What a run does here, it does for a suite that is selected and is to run here.
pub proof fn law_only_selected_local_suites_run(
    cfg: Config,
    opts: RunOpts,
    dirs: Seq<Seq<char>>,
    stage: Stage,
)
    requires
        runner::is_stage(cfg, opts, stage),
        runner::action_at(cfg, opts, dirs, stage) is Probe || runner::action_at(
            cfg,
            opts,
            dirs,
            stage,
        ) is Test,
    ensures
        exists|i: int|
            {
                &&& 0 <= i < cfg.suites@.len()
                &&& opts.wants(#[trigger] cfg.suites@[i])
                &&& opts.is_local(cfg.suites@[i])
                &&& stage == Stage::Probe(i) || stage == Stage::Test(i)
            },
{
    match stage {
        Stage::Probe(i) | Stage::Test(i) => {
            assert(opts.wants(cfg.suites@[i]));
        },
        _ => {},
    }
}

/// The placement of a run overrides that of the suites: placed here, no suite is skipped; placed
/// elsewhere, none is run.
pub proof fn law_placement_overrides(cfg: Config, opts: RunOpts, stage: Stage, s: Suite)
    requires
        opts.on is Some,
    ensures
        opts.on->0@ == "local"@ ==> opts.is_local(s),
        opts.on->0@ != "local"@ ==> !opts.is_local(s) && (runner::is_stage(cfg, opts, stage)
            ==> stage is Link || stage is Done),
{
}

/// Under capture nothing that is run writes to our standard output, which stays free for the
/// report.
pub proof fn law_capture_keeps_stdout_free(
    cfg: Config,
    opts: RunOpts,
    dirs: Seq<Seq<char>>,
    stage: Stage,
)
    requires
        opts.capture,
    ensures
        runner::action_at(cfg, opts, dirs, stage) matches ActionView::Link(c) ==> c.output
            == Output::Muted,
        runner::action_at(cfg, opts, dirs, stage) matches ActionView::Test { command, .. }
            ==> command.output == Output::Captured,
{
}

/// The linking comes first, and only where the defaults ask for it: no event leads back to it.
pub proof fn law_linking_comes_first(
    cfg: Config,
    opts: RunOpts,
    dirs: Seq<Seq<char>>,
    stage: Stage,
    results: Seq<ResultView>,
    event: Event,
)
    requires
        stage !is Link || event is Linked,
    ensures
        (runner::started(cfg, opts).0 is Link) == (cfg.defaults.dev_link == Some(true)),
        runner::advanced(cfg, opts, dirs, stage, results, event).0 !is Link,
{
}

/// In the report of a run, the passed, the failed and the skipped suites together are the selected
/// ones.
pub proof fn law_run_counts_add_up(
    cfg: Config,
    opts: RunOpts,
    dirs: Seq<Seq<char>>,
    world: spec_fn(int) -> Trial,
)
    ensures
        ({
            let results = expected(cfg, opts, dirs, world, cfg.suites@.len());
            report::passes(results) + report::failures(results) + report::skips(results)
                == selection(cfg, opts, cfg.suites@.len()).len()
        }),
{
    let results = expected(cfg, opts, dirs, world, cfg.suites@.len());
    assert(report::is_sound(results));
    report::law_counts_add_up(results);
}

/// What a run ends with says of each selected suite what became of it, whatever the options are. Its
/// result has its name and its tier. It was skipped just where it does not run here. It passed just
/// where it runs here, its directory is there, and its tests ran and succeeded, captured or not, and
/// just then there is no note.
pub proof fn law_run_says_what_became_of_each_suite(
    cfg: Config,
    opts: RunOpts,
    dirs: Seq<Seq<char>>,
    world: spec_fn(int) -> Trial,
    k: int,
)
    requires
        0 <= k < selection(cfg, opts, cfg.suites@.len()).len(),
    ensures
        ({
            let results = driven(
                cfg,
                opts,
                dirs,
                runner::started(cfg, opts).0,
                runner::started(cfg, opts).1,
                world,
            );
            let i = selection(cfg, opts, cfg.suites@.len())[k];
            let s = cfg.suites@[i];
            let r = results[k];
            let trial = world(i);
            let place = if opts.on is Some {
                opts.on->0@
            } else if s.location is Some {
                s.location->0@
            } else {
                "local"@
            };
            let succeeded = trial.outcome is Exited && trial.outcome->success;
            &&& results.len() == selection(cfg, opts, cfg.suites@.len()).len()
            &&& r.name == s.name@
            &&& r.tier is Some <==> s.tier is Some
            &&& s.tier is Some ==> r.tier->0 == s.tier->0@
            &&& r.skipped <==> place != "local"@
            &&& r.passed <==> place == "local"@ && trial.exists && succeeded
            &&& r.note.len() == 0 <==> place == "local"@ && trial.exists && succeeded
            &&& r.nanos == if place == "local"@ {
                trial.nanos
            } else {
                0
            }
            &&& place != "local"@ ==> r.note == "where="@ + place
                + ": distributed execution over the mesh is pending the p2p artifact path (fetch-by-CID); not run local silently"@
            &&& place == "local"@ && !trial.exists ==> r.note == "path not found: "@ + dirs[i]
            &&& place == "local"@ && trial.exists ==> r.note == local::verdict_of(
                trial.outcome,
                opts.capture,
            ).1
        }),
{
    law_run_reports_every_selected_suite(cfg, opts, dirs, world);
    law_selection(cfg, opts, cfg.suites@.len());
    let i = selection(cfg, opts, cfg.suites@.len())[k];
    runner::law_runs_here_just_where_local(opts, cfg.suites@[i]);
    local::law_success_alone_passes(world(i).outcome, opts.capture);
    reveal_strlit("where=");
    reveal_strlit("path not found: ");
}

/// Whether the output is captured decides nothing: two runs that differ in it alone report the same
/// suites as passed, as failed and as skipped.
pub proof fn law_capture_decides_nothing(
    cfg: Config,
    opts: RunOpts,
    capture: bool,
    dirs: Seq<Seq<char>>,
    world: spec_fn(int) -> Trial,
    k: int,
)
    requires
        0 <= k < selection(cfg, opts, cfg.suites@.len()).len(),
    ensures
        ({
            let other = RunOpts { capture, ..opts };
            let a = driven(
                cfg,
                opts,
                dirs,
                runner::started(cfg, opts).0,
                runner::started(cfg, opts).1,
                world,
            );
            let b = driven(
                cfg,
                other,
                dirs,
                runner::started(cfg, other).0,
                runner::started(cfg, other).1,
                world,
            );
            a.len() == b.len() && a[k].name == b[k].name && a[k].passed == b[k].passed
                && a[k].skipped == b[k].skipped
        }),
{
    let other = RunOpts { capture, ..opts };
    assert forall|s: Suite| opts.wants(s) == other.wants(s) by {}
    assert((|i: int| opts.wants(cfg.suites@[i])) =~= (|i: int| other.wants(cfg.suites@[i])));
    law_run_says_what_became_of_each_suite(cfg, opts, dirs, world, k);
    law_run_says_what_became_of_each_suite(cfg, other, dirs, world, k);
}

/// A run without failures is one in which every selected suite that runs here was there and passed.
pub proof fn law_run_fails_where_a_suite_fails(
    cfg: Config,
    opts: RunOpts,
    dirs: Seq<Seq<char>>,
    world: spec_fn(int) -> Trial,
)
    ensures
        ({
            let results = driven(
                cfg,
                opts,
                dirs,
                runner::started(cfg, opts).0,
                runner::started(cfg, opts).1,
                world,
            );
            report::failures(results) == 0 <==> forall|i: int|
                0 <= i < cfg.suites@.len() && opts.wants(#[trigger] cfg.suites@[i])
                    && opts.is_local(cfg.suites@[i]) ==> world(i).exists
                    && world(i).outcome is Exited && world(i).outcome->success
        }),
{
    let n = cfg.suites@.len();
    let picked = selection(cfg, opts, n);
    let results = driven(
        cfg,
        opts,
        dirs,
        runner::started(cfg, opts).0,
        runner::started(cfg, opts).1,
        world,
    );
    law_run_reports_every_selected_suite(cfg, opts, dirs, world);
    law_selection(cfg, opts, n);
    report::law_no_failures(results);
    if report::failures(results) == 0 {
        assert forall|i: int|
            0 <= i < n && opts.wants(#[trigger] cfg.suites@[i]) && opts.is_local(
                cfg.suites@[i],
            ) implies world(i).exists && world(i).outcome is Exited && world(
            i,
        ).outcome->success by {
            let k = choose|k: int| 0 <= k < picked.len() && picked[k] == i;
            law_run_says_what_became_of_each_suite(cfg, opts, dirs, world, k);
            runner::law_runs_here_just_where_local(opts, cfg.suites@[i]);
            assert(results[k].passed || results[k].skipped);
        }
    } else {
        let k = choose|k: int|
            0 <= k < results.len() && !((#[trigger] results[k]).passed || results[k].skipped);
        law_run_says_what_became_of_each_suite(cfg, opts, dirs, world, k);
        runner::law_runs_here_just_where_local(opts, cfg.suites@[picked[k]]);
        assert(opts.wants(cfg.suites@[picked[k]]));
    }
}

} // verus!
