//! The report of a run: one result for each suite, the counts, and the document for other tools.

use crate::json;
use crate::text;
use serde_json::Value;
use vstd::prelude::*;

verus! {

/// Outcome of one suite.
#[derive(Debug, Clone)]
pub struct SuiteResult {
    /// The suite's name.
    pub name: String,
    /// The suite's tier.
    pub tier: Option<String>,
    /// Whether it ran and passed.
    pub passed: bool,
    /// Whether it was left out, because it does not run here.
    pub skipped: bool,
    /// How long it took, in nanoseconds.
    pub nanos: u64,
    /// Why it failed or was skipped; empty where it passed.
    pub note: String,
}

/// A [`SuiteResult`] as a mathematical value.
pub struct ResultView {
    /// The suite's name.
    pub name: Seq<char>,
    /// The suite's tier.
    pub tier: Option<Seq<char>>,
    /// Whether it ran and passed.
    pub passed: bool,
    /// Whether it was left out.
    pub skipped: bool,
    /// How long it took, in nanoseconds.
    pub nanos: u64,
    /// Why it failed or was skipped.
    pub note: Seq<char>,
}

impl View for SuiteResult {
    type V = ResultView;

    open spec fn view(&self) -> ResultView {
        ResultView {
            name: self.name@,
            tier: text::opt(self.tier),
            passed: self.passed,
            skipped: self.skipped,
            nanos: self.nanos,
            note: self.note@,
        }
    }
}

impl ResultView {
    /// It ran and did not pass.
    pub open spec fn failed(self) -> bool {
        !self.passed && !self.skipped
    }

    /// The document of one result, with `secs` for its time; a suite without a tier has no `tier`
    /// in it.
    pub open spec fn document_with(self, secs: json::Tree) -> json::Tree {
        let untiered = json::no_members().insert("name"@, json::Tree::Text(self.name)).insert(
            "passed"@,
            json::Tree::Bool(self.passed),
        ).insert("skipped"@, json::Tree::Bool(self.skipped)).insert(
            "secs"@,
            secs,
        ).insert("note"@, json::Tree::Text(self.note));
        json::Tree::Object(
            match self.tier {
                Some(tier) => untiered.insert("tier"@, json::Tree::Text(tier)),
                None => untiered,
            },
        )
    }

    /// The document of one result, with its time in seconds.
    pub open spec fn document(self) -> json::Tree {
        self.document_with(json::Tree::Double(json::seconds(self.nanos)))
    }
}

/// The results of a sequence as mathematical values.
pub open spec fn views(results: Seq<SuiteResult>) -> Seq<ResultView> {
    results.map_values(|r: SuiteResult| r@)
}

/// How many results failed.
pub open spec fn failures(results: Seq<ResultView>) -> nat {
    results.filter(|r: ResultView| r.failed()).len()
}

/// How many results passed.
pub open spec fn passes(results: Seq<ResultView>) -> nat {
    results.filter(|r: ResultView| r.passed).len()
}

/// How many results were skipped.
pub open spec fn skips(results: Seq<ResultView>) -> nat {
    results.filter(|r: ResultView| r.skipped).len()
}

/// No result is both passed and skipped.
pub open spec fn is_sound(results: Seq<ResultView>) -> bool {
    forall|i: int| 0 <= i < results.len() ==> !((#[trigger] results[i]).passed && results[i].skipped)
}

/// The counts of a report as a document.
pub open spec fn summary_document(results: Seq<ResultView>) -> json::Tree {
    json::Tree::Object(
        json::no_members().insert("total"@, json::Tree::Whole(results.len() as int)).insert(
            "passed"@,
            json::Tree::Whole(passes(results) as int),
        ).insert("failed"@, json::Tree::Whole(failures(results) as int)).insert(
            "skipped"@,
            json::Tree::Whole(skips(results) as int),
        ),
    )
}

/// A report as a document: `{ "suites": [...], "summary": {...} }`.
pub open spec fn report_document(results: Seq<ResultView>) -> json::Tree {
    json::Tree::Object(
        json::no_members().insert(
            "suites"@,
            json::Tree::Array(results.map_values(|r: ResultView| r.document())),
        ).insert("summary"@, summary_document(results)),
    )
}

/// The whole run.
#[derive(Debug, Clone)]
pub struct Report {
    /// One result for each suite that was selected, in the order of the configuration.
    pub results: Vec<SuiteResult>,
}

impl View for Report {
    type V = Seq<ResultView>;

    open spec fn view(&self) -> Seq<ResultView> {
        views(self.results@)
    }
}

/// One more result at the end of those counted so far.
proof fn lemma_count_next(results: Seq<SuiteResult>, i: int, pred: spec_fn(ResultView) -> bool)
    requires
        0 <= i < results.len(),
    ensures
        views(results).take(i + 1).filter(pred).len() == views(results).take(i).filter(pred).len()
            + if pred(results[i]@) {
            1nat
        } else {
            0nat
        },
        views(results).take(i + 1).filter(pred).len() <= i + 1,
{
    reveal(Seq::filter);
    let all = views(results);
    assert(all.take(i + 1).drop_last() =~= all.take(i));
    all.take(i + 1).lemma_filter_len(pred);
}

impl Report {
    /// Counts the suites that passed, those that ran and did not pass, and those that were skipped.
    fn tally(&self) -> (r: (usize, usize, usize))
        ensures
            r.0 == passes(self@),
            r.1 == failures(self@),
            r.2 == skips(self@),
    {
        let ghost is_pass = |r: ResultView| r.passed;
        let ghost is_failure = |r: ResultView| r.failed();
        let ghost is_skip = |r: ResultView| r.skipped;
        let mut passed: usize = 0;
        let mut failed: usize = 0;
        let mut skipped: usize = 0;
        let mut i: usize = 0;
        proof {
            reveal(Seq::filter);
        }
        while i < self.results.len()
            invariant
                i <= self.results@.len(),
                passed <= i,
                failed <= i,
                skipped <= i,
                is_pass == (|r: ResultView| r.passed),
                is_failure == (|r: ResultView| r.failed()),
                is_skip == (|r: ResultView| r.skipped),
                passed == self@.take(i as int).filter(is_pass).len(),
                failed == self@.take(i as int).filter(is_failure).len(),
                skipped == self@.take(i as int).filter(is_skip).len(),
            decreases self.results@.len() - i,
        {
            let r: &SuiteResult = &self.results[i];
            proof {
                lemma_count_next(self.results@, i as int, is_pass);
                lemma_count_next(self.results@, i as int, is_failure);
                lemma_count_next(self.results@, i as int, is_skip);
            }
            if r.passed {
                passed = passed + 1;
            }
            if !r.passed && !r.skipped {
                failed = failed + 1;
            }
            if r.skipped {
                skipped = skipped + 1;
            }
            i = i + 1;
        }
        proof {
            assert(self@.take(i as int) =~= self@);
        }
        (passed, failed, skipped)
    }

    /// How many suites ran and did not pass.
    pub fn failed(&self) -> (r: usize)
        ensures
            r == failures(self@),
    {
        self.tally().1
    }

    /// How many suites passed.
    pub fn passed(&self) -> (r: usize)
        ensures
            r == passes(self@),
    {
        self.tally().0
    }

    /// How many suites were skipped.
    pub fn skipped(&self) -> (r: usize)
        ensures
            r == skips(self@),
    {
        self.tally().2
    }
}

/// The document of one result, with `secs` for its time.
pub fn result_json(r: &SuiteResult, secs: Value) -> (v: Value)
    ensures
        json::tree(v) == r@.document_with(json::tree(secs)),
{
    let mut m = serde_json::Map::new();
    m.insert("name".to_owned(), json::text(r.name.as_str()));
    m.insert("passed".to_owned(), json::boolean(r.passed));
    m.insert("skipped".to_owned(), json::boolean(r.skipped));
    m.insert("secs".to_owned(), secs);
    m.insert("note".to_owned(), json::text(r.note.as_str()));
    if let Some(tier) = &r.tier {
        m.insert("tier".to_owned(), json::text(tier.as_str()));
    }
    json::object(m)
}

impl Report {
    /// A machine-readable view: `{ "suites": [...], "summary": {...} }`. The names of the members
    /// are fixed, so that other tools can gate on `summary.failed == 0`.
    pub fn to_json(&self) -> (v: Value)
        ensures
            json::tree(v) == report_document(self@),
    {
        let mut suites: Vec<Value> = Vec::new();
        let mut i: usize = 0;
        while i < self.results.len()
            invariant
                i <= self.results@.len(),
                suites@.len() == i,
                forall|k: int|
                    0 <= k < i ==> json::tree(#[trigger] suites@[k]) == self.results@[k]@.document(),
            decreases self.results@.len() - i,
        {
            let secs: Value = json::duration(self.results[i].nanos);
            suites.push(result_json(&self.results[i], secs));
            i = i + 1;
        }
        proof {
            assert(json::trees(suites@) =~= self@.map_values(|r: ResultView| r.document()));
        }
        let (passed, failed, skipped) = self.tally();
        let mut summary = serde_json::Map::new();
        summary.insert("total".to_owned(), json::count(self.results.len()));
        summary.insert("passed".to_owned(), json::count(passed));
        summary.insert("failed".to_owned(), json::count(failed));
        summary.insert("skipped".to_owned(), json::count(skipped));
        let mut m = serde_json::Map::new();
        m.insert("suites".to_owned(), json::array(suites));
        m.insert("summary".to_owned(), json::object(summary));
        json::object(m)
    }
}

/// Every result is counted once: in a report without a result that is both passed and skipped,
/// the passed, the failed and the skipped suites together are all of them.
pub proof fn law_counts_add_up(results: Seq<ResultView>)
    requires
        is_sound(results),
    ensures
        passes(results) + failures(results) + skips(results) == results.len(),
    decreases results.len(),
{
    reveal(Seq::filter);
    if results.len() > 0 {
        let init = results.drop_last();
        assert forall|i: int| 0 <= i < init.len() implies !((#[trigger] init[i]).passed
            && init[i].skipped) by {
            assert(init[i] == results[i]);
        }
        law_counts_add_up(init);
    }
}

/// A report has no failures just where every suite passed or was skipped.
pub proof fn law_no_failures(results: Seq<ResultView>)
    ensures
        (failures(results) == 0) == (forall|i: int|
            0 <= i < results.len() ==> (#[trigger] results[i]).passed || results[i].skipped),
    decreases results.len(),
{
    reveal(Seq::filter);
    if results.len() > 0 {
        let init = results.drop_last();
        law_no_failures(init);
        if failures(results) == 0 {
            assert forall|i: int| 0 <= i < results.len() implies (#[trigger] results[i]).passed
                || results[i].skipped by {
                if i < init.len() {
                    assert(results[i] == init[i]);
                }
            }
        } else if failures(init) != 0 {
            let i = choose|i: int|
                0 <= i < init.len() && !((#[trigger] init[i]).passed || init[i].skipped);
            assert(results[i] == init[i]);
        } else {
            assert(results.last().failed());
            assert(results[results.len() - 1].failed());
        }
    }
}

/// What a tool reads in the document of a report: `summary.failed` is the number of failures, and
/// it is zero just where no suite failed.
pub proof fn law_summary_gates(results: Seq<ResultView>)
    ensures
        report_document(results).member("summary"@).member("failed"@) == json::Tree::Whole(
            failures(results) as int,
        ),
        report_document(results).member("summary"@).member("total"@) == json::Tree::Whole(
            results.len() as int,
        ),
        (failures(results) == 0) == (forall|i: int|
            0 <= i < results.len() ==> !(#[trigger] results[i]).failed()),
{
    reveal_strlit("summary");
    reveal_strlit("suites");
    reveal_strlit("total");
    reveal_strlit("passed");
    reveal_strlit("failed");
    reveal_strlit("skipped");
    assert("failed"@.len() == 6 && "total"@.len() == 5 && "skipped"@.len() == 7);
    assert("passed"@[0] == 'p' && "failed"@[0] == 'f');
    law_no_failures(results);
}

/// The document of a report holds the document of each result, in order.
pub proof fn law_document_holds_every_result(results: Seq<ResultView>, i: int)
    requires
        0 <= i < results.len(),
    ensures
        report_document(results).member("suites"@).item(i) == results[i].document(),
{
    reveal_strlit("summary");
    reveal_strlit("suites");
    assert("summary"@.len() == 7 && "suites"@.len() == 6);
}

/// The view of a result holds what the result says.
pub proof fn law_view_of_a_result(r: SuiteResult)
    ensures
        r@.name == r.name@,
        r@.tier is Some <==> r.tier is Some,
        r.tier is Some ==> r@.tier->0 == r.tier->0@,
        r@.passed == r.passed,
        r@.skipped == r.skipped,
        r@.nanos == r.nanos,
        r@.note == r.note@,
{
}

/// The view of a report holds the views of its results, in order.
pub proof fn law_view_of_a_report(report: Report, i: int)
    ensures
        report@.len() == report.results@.len(),
        0 <= i < report.results@.len() ==> report@[i] == report.results@[i]@,
{
}

/// Counting goes result by result: a result that passed counts as passed, one that was skipped as
/// skipped, one that is neither as failed, and the counts of two reports one behind the other are
/// the sums of theirs.
pub proof fn law_counts(a: Seq<ResultView>, b: Seq<ResultView>, r: ResultView)
    ensures
        passes(Seq::empty()) == 0 && failures(Seq::empty()) == 0 && skips(Seq::empty()) == 0,
        passes(seq![r]) == if r.passed {
            1nat
        } else {
            0nat
        },
        skips(seq![r]) == if r.skipped {
            1nat
        } else {
            0nat
        },
        failures(seq![r]) == if r.passed || r.skipped {
            0nat
        } else {
            1nat
        },
        passes(a + b) == passes(a) + passes(b),
        skips(a + b) == skips(a) + skips(b),
        failures(a + b) == failures(a) + failures(b),
{
    reveal_with_fuel(Seq::filter, 2);
    let none = Seq::<ResultView>::empty();
    assert(seq![r].drop_last() =~= none);
    Seq::filter_distributes_over_add(a, b, |r: ResultView| r.passed);
    Seq::filter_distributes_over_add(a, b, |r: ResultView| r.skipped);
    Seq::filter_distributes_over_add(a, b, |r: ResultView| r.failed());
}

/// What a tool reads of a suite in the document of a report: its name, whether it passed and was
/// skipped, its seconds and the note, and its tier just where it has one. There is nothing else.
pub proof fn law_document_of_a_result(r: ResultView, secs: json::Tree, key: Seq<char>)
    ensures
        r.document_with(secs) is Object,
        r.document_with(secs).member("name"@) == json::Tree::Text(r.name),
        r.document_with(secs).member("passed"@) == json::Tree::Bool(r.passed),
        r.document_with(secs).member("skipped"@) == json::Tree::Bool(r.skipped),
        r.document_with(secs).member("secs"@) == secs,
        r.document_with(secs).member("note"@) == json::Tree::Text(r.note),
        r.tier is Some ==> r.document_with(secs).member("tier"@) == json::Tree::Text(r.tier->0),
        r.document_with(secs)->Object_0.contains_key(key) <==> key == "name"@ || key == "passed"@
            || key == "skipped"@ || key == "secs"@ || key == "note"@ || (key == "tier"@
            && r.tier is Some),
        r.document() == r.document_with(json::Tree::Double(json::seconds(r.nanos))),
{
    reveal_strlit("name");
    reveal_strlit("passed");
    reveal_strlit("skipped");
    reveal_strlit("secs");
    reveal_strlit("note");
    reveal_strlit("tier");
    assert("name"@.len() == 4 && "passed"@.len() == 6 && "skipped"@.len() == 7);
    assert("secs"@.len() == 4 && "note"@.len() == 4 && "tier"@.len() == 4);
    assert("name"@[1] == 'a' && "secs"@[1] == 'e' && "note"@[1] == 'o' && "tier"@[1] == 'i');
}

/// What a tool reads in the document of a report: one document for each result, in order, and how
/// many suites there are, passed, failed and were skipped. There is nothing else.
pub proof fn law_document_of_a_report(results: Seq<ResultView>, i: int, key: Seq<char>)
    ensures
        ({
            let document = report_document(results);
            let summary = document.member("summary"@);
            &&& document is Object
            &&& document->Object_0.contains_key(key) <==> key == "suites"@ || key == "summary"@
            &&& document.member("suites"@) is Array
            &&& document.member("suites"@)->Array_0.len() == results.len()
            &&& 0 <= i < results.len() ==> document.member("suites"@).item(i)
                == results[i].document_with(json::Tree::Double(json::seconds(results[i].nanos)))
            &&& summary is Object
            &&& summary->Object_0.contains_key(key) <==> key == "total"@ || key == "passed"@ || key
                == "failed"@ || key == "skipped"@
            &&& summary.member("total"@) == json::Tree::Whole(results.len() as int)
            &&& summary.member("passed"@) == json::Tree::Whole(passes(results) as int)
            &&& summary.member("failed"@) == json::Tree::Whole(failures(results) as int)
            &&& summary.member("skipped"@) == json::Tree::Whole(skips(results) as int)
        }),
{
    reveal_strlit("summary");
    reveal_strlit("suites");
    reveal_strlit("total");
    reveal_strlit("passed");
    reveal_strlit("failed");
    reveal_strlit("skipped");
    assert("suites"@.len() == 6 && "summary"@.len() == 7);
    assert("failed"@.len() == 6 && "total"@.len() == 5 && "skipped"@.len() == 7);
    assert("passed"@[0] == 'p' && "failed"@[0] == 'f');
}

} // verus!
