//! Snapshot reporting: aggregate a suite's outcomes into per-variant
//! counts and a deterministic textual report, and diff it against the
//! previously committed snapshot to surface regressions.

use vstd::prelude::*;
use vstd::string::StringExecFns;

use crate::case::{CaseModel, Tool};
use crate::result::{is_passing, rank, ResultModel, TestResult};
use crate::suite::{
    case_le, lemma_run_idempotent, path_listed, run_cases_model, sorted_by_path, Suite,
};
use crate::text::{append_dec, dec_digits, lex_le};

verus! {

/// Mathematical model of [`Stats`]: per-variant counts over the cases that
/// contribute to aggregation.
#[verifier::ext_equal]
pub struct StatsModel {
    pub total: int,
    pub passed: int,
    pub correct_error: int,
    pub mismatch: int,
    pub parse_error: int,
    pub runtime_error: int,
    pub incorrectly_passed: int,
}

/// Aggregate counts of one run: the total number of contributing cases,
/// how many count toward the pass rate, and one counter per result
/// variant.
pub struct Stats {
    pub total: usize,
    pub passed: usize,
    pub correct_error: usize,
    pub mismatch: usize,
    pub parse_error: usize,
    pub runtime_error: usize,
    pub incorrectly_passed: usize,
}

impl View for Stats {
    type V = StatsModel;

    open spec fn view(&self) -> StatsModel {
        StatsModel {
            total: self.total as int,
            passed: self.passed as int,
            correct_error: self.correct_error as int,
            mismatch: self.mismatch as int,
            parse_error: self.parse_error as int,
            runtime_error: self.runtime_error as int,
            incorrectly_passed: self.incorrectly_passed as int,
        }
    }
}

/// The zero of [`StatsModel`].
pub open spec fn zero_stats() -> StatsModel {
    StatsModel {
        total: 0,
        passed: 0,
        correct_error: 0,
        mismatch: 0,
        parse_error: 0,
        runtime_error: 0,
        incorrectly_passed: 0,
    }
}

/// Account one more result into the counts.
pub open spec fn add_result(s: StatsModel, r: ResultModel) -> StatsModel {
    StatsModel {
        total: s.total + 1,
        passed: s.passed + if is_passing(r) {
            1int
        } else {
            0int
        },
        correct_error: s.correct_error + if r is CorrectError {
            1int
        } else {
            0int
        },
        mismatch: s.mismatch + if r is Mismatch {
            1int
        } else {
            0int
        },
        parse_error: s.parse_error + if r is ParseError {
            1int
        } else {
            0int
        },
        runtime_error: s.runtime_error + if r is RuntimeError {
            1int
        } else {
            0int
        },
        incorrectly_passed: s.incorrectly_passed + if r is IncorrectlyPassed {
            1int
        } else {
            0int
        },
    }
}

/// The counts over a case list, in order.
pub open spec fn stats_of(cs: Seq<CaseModel>) -> StatsModel
    decreases cs.len(),
{
    if cs.len() == 0 {
        zero_stats()
    } else {
        add_result(stats_of(cs.drop_last()), cs.last().result)
    }
}

/// Every counter is bounded by the total, which is the list's length.
pub proof fn lemma_stats_bounds(cs: Seq<CaseModel>)
    ensures
        stats_of(cs).total == cs.len(),
        0 <= stats_of(cs).passed <= cs.len(),
        0 <= stats_of(cs).correct_error <= cs.len(),
        0 <= stats_of(cs).mismatch <= cs.len(),
        0 <= stats_of(cs).parse_error <= cs.len(),
        0 <= stats_of(cs).runtime_error <= cs.len(),
        0 <= stats_of(cs).incorrectly_passed <= cs.len(),
    decreases cs.len(),
{
    if cs.len() > 0 {
        lemma_stats_bounds(cs.drop_last());
    }
}

/// Mathematical model of a [`FailureLine`].
#[verifier::ext_equal]
pub struct FailureModel {
    pub path: Seq<char>,
    pub kind: int,
    pub detail: Seq<char>,
}

/// One line of the report: a non-passing case's path, the rank of its
/// result variant (so a later diff can tell a worsened kind from a mere
/// wording change), and its result detail.
pub struct FailureLine {
    pub path: String,
    pub kind: u8,
    pub detail: String,
}

impl View for FailureLine {
    type V = FailureModel;

    open spec fn view(&self) -> FailureModel {
        FailureModel { path: self.path@, kind: self.kind as int, detail: self.detail@ }
    }
}

impl DeepView for FailureLine {
    type V = FailureModel;

    open spec fn deep_view(&self) -> FailureModel {
        self.view()
    }
}

/// The short name of a result variant.
pub open spec fn label_of(r: ResultModel) -> Seq<char> {
    match r {
        ResultModel::Passed => "passed"@,
        ResultModel::CorrectError => "correct error"@,
        ResultModel::Mismatch { .. } => "mismatch"@,
        ResultModel::ParseError { .. } => "parse error"@,
        ResultModel::RuntimeError { .. } => "runtime error"@,
        ResultModel::IncorrectlyPassed => "incorrectly passed"@,
    }
}

/// Diagnostics joined for inline display.
pub open spec fn joined(ds: Seq<Seq<char>>) -> Seq<char>
    decreases ds.len(),
{
    if ds.len() == 0 {
        Seq::empty()
    } else if ds.len() == 1 {
        ds[0]
    } else {
        joined(ds.drop_last()) + " | "@ + ds.last()
    }
}

/// The detail shown for a result: its label, and, when the diff flag is
/// set and the result is a mismatch, the actual diagnostics inline.
pub open spec fn detail_of(r: ResultModel, diff: bool) -> Seq<char> {
    match r {
        ResultModel::Mismatch { expected, actual_diagnostics } => if diff {
            label_of(r) + ": "@ + joined(actual_diagnostics)
        } else {
            label_of(r)
        },
        _ => label_of(r),
    }
}

/// The failure lines of a case list: one per non-passing case, in order.
pub open spec fn failures_of(cs: Seq<CaseModel>, diff: bool) -> Seq<FailureModel>
    decreases cs.len(),
{
    if cs.len() == 0 {
        Seq::empty()
    } else {
        let rest = failures_of(cs.drop_last(), diff);
        if !is_passing(cs.last().result) {
            rest.push(
                FailureModel {
                    path: cs.last().path,
                    kind: rank(cs.last().result),
                    detail: detail_of(cs.last().result, diff),
                },
            )
        } else {
            rest
        }
    }
}

/// Mathematical model of a [`Report`].
#[verifier::ext_equal]
pub struct ReportModel {
    pub name: Seq<char>,
    pub stats: StatsModel,
    pub failures: Seq<FailureModel>,
}

/// The aggregated outcome of one suite run, and equally the logical
/// content of the suite's committed snapshot.
pub struct Report {
    pub name: String,
    pub stats: Stats,
    pub failures: Vec<FailureLine>,
}

impl View for Report {
    type V = ReportModel;

    open spec fn view(&self) -> ReportModel {
        ReportModel { name: self.name@, stats: self.stats@, failures: self.failures.deep_view() }
    }
}

impl DeepView for Report {
    type V = ReportModel;

    open spec fn deep_view(&self) -> ReportModel {
        self.view()
    }
}

/// The report of a run's case list: counts and failure lines over every
/// stored case. A filtered run stores only the matching cases, so they
/// alone contribute here.
pub open spec fn report_of(name: Seq<char>, cs: Seq<CaseModel>, diff: bool) -> ReportModel {
    ReportModel { name, stats: stats_of(cs), failures: failures_of(cs, diff) }
}

/// The empty baseline a suite is compared against on its first run.
pub open spec fn empty_report_model(name: Seq<char>) -> ReportModel {
    ReportModel { name, stats: zero_stats(), failures: Seq::empty() }
}

/// The label string for one result.
fn label_string(r: &TestResult) -> (s: &'static str)
    ensures
        s@ == label_of(r@),
{
    match r {
        TestResult::Passed => "passed",
        TestResult::CorrectError => "correct error",
        TestResult::Mismatch { .. } => "mismatch",
        TestResult::ParseError { .. } => "parse error",
        TestResult::RuntimeError { .. } => "runtime error",
        TestResult::IncorrectlyPassed => "incorrectly passed",
    }
}

/// Append the joined diagnostics to `s`.
fn append_joined(s: &mut String, ds: &Vec<String>)
    ensures
        final(s)@ == old(s)@ + joined(ds.deep_view()),
{
    let ghost dm = ds.deep_view();
    let mut i: usize = 0;
    proof {
        assert(dm.take(0) =~= Seq::<Seq<char>>::empty());
        assert(s@ =~= old(s)@ + joined(dm.take(0)));
    }
    while i < ds.len()
        invariant
            i <= ds.len(),
            dm == ds.deep_view(),
            s@ == old(s)@ + joined(dm.take(i as int)),
        decreases ds.len() - i,
    {
        if i > 0 {
            s.append(" | ");
        }
        s.append(ds[i].as_str());
        proof {
            assert(dm[i as int] == ds@[i as int]@);
            assert(dm.take(i + 1).drop_last() =~= dm.take(i as int));
            assert(dm.take(i + 1).last() == dm[i as int]);
            if i == 0 {
                assert(joined(dm.take(1)) == dm.take(1)[0]);
                assert(s@ =~= old(s)@ + joined(dm.take(1)));
            } else {
                assert(s@ =~= old(s)@ + joined(dm.take(i + 1)));
            }
        }
        i = i + 1;
    }
    proof {
        assert(dm.take(ds.len() as int) =~= dm);
    }
}

/// The detail string for one result.
fn detail_string(r: &TestResult, diff: bool) -> (s: String)
    ensures
        s@ == detail_of(r@, diff),
{
    let mut s = label_string(r).to_owned();
    match r {
        TestResult::Mismatch { actual_diagnostics, .. } => {
            if diff {
                s.append(": ");
                append_joined(&mut s, actual_diagnostics);
            }
        },
        _ => {},
    }
    s
}

/// Build the report of one suite run: partition the stored cases by
/// result, count them, and list every non-passing case's path, result
/// kind and detail, in the suite's path-sorted order.
pub fn build_report(suite: &Suite, diff: bool) -> (r: Report)
    ensures
        r@ == report_of(suite@.name, suite@.cases, diff),
{
    let ghost cs = suite@.cases;
    let mut stats = Stats {
        total: 0,
        passed: 0,
        correct_error: 0,
        mismatch: 0,
        parse_error: 0,
        runtime_error: 0,
        incorrectly_passed: 0,
    };
    let mut failures: Vec<FailureLine> = Vec::new();
    let mut i: usize = 0;
    proof {
        assert(cs.take(0) =~= Seq::<CaseModel>::empty());
        assert(stats@ =~= stats_of(cs.take(0)));
        assert(failures.deep_view() =~= failures_of(cs.take(0), diff));
    }
    while i < suite.test_cases.len()
        invariant
            i <= suite.test_cases.len(),
            cs == suite@.cases,
            stats@ == stats_of(cs.take(i as int)),
            failures.deep_view() == failures_of(cs.take(i as int), diff),
        decreases suite.test_cases.len() - i,
    {
        let c = &suite.test_cases[i];
        proof {
            assert(cs[i as int] == suite.test_cases@[i as int]@);
            lemma_stats_bounds(cs.take(i as int));
            assert(cs.take(i as int).len() == i as int);
        }
        let ghost spre = stats@;
        stats.total = stats.total + 1;
        if c.result.is_passing() {
            stats.passed = stats.passed + 1;
        }
        match &c.result {
            TestResult::Passed => {},
            TestResult::CorrectError => {
                stats.correct_error = stats.correct_error + 1;
            },
            TestResult::Mismatch { .. } => {
                stats.mismatch = stats.mismatch + 1;
            },
            TestResult::ParseError { .. } => {
                stats.parse_error = stats.parse_error + 1;
            },
            TestResult::RuntimeError { .. } => {
                stats.runtime_error = stats.runtime_error + 1;
            },
            TestResult::IncorrectlyPassed => {
                stats.incorrectly_passed = stats.incorrectly_passed + 1;
            },
        }
        proof {
            assert(stats@ =~= add_result(spre, cs[i as int].result));
        }
        let ghost fpre = failures.deep_view();
        if !c.result.is_passing() {
            let line = FailureLine {
                path: c.path.clone(),
                kind: c.result.rank_of(),
                detail: detail_string(&c.result, diff),
            };
            let ghost lm = line@;
            let ghost fraw = failures@;
            proof {
                assert(lm =~= FailureModel {
                    path: cs[i as int].path,
                    kind: rank(cs[i as int].result),
                    detail: detail_of(cs[i as int].result, diff),
                });
            }
            failures.push(line);
            proof {
                assert forall|j: int| 0 <= j < failures@.len() implies failures.deep_view()[j]
                    == fpre.push(lm)[j] by {
                    if j < fraw.len() {
                        assert(failures@[j] == fraw[j]);
                        assert(fpre[j] == fraw[j].deep_view());
                    }
                }
                assert(failures.deep_view() =~= fpre.push(lm));
            }
        }
        proof {
            assert(cs.take(i + 1).drop_last() =~= cs.take(i as int));
            assert(cs.take(i + 1).last() == cs[i as int]);
            assert(stats@ =~= stats_of(cs.take(i + 1)));
            assert(failures.deep_view() =~= failures_of(cs.take(i + 1), diff));
        }
        i = i + 1;
    }
    proof {
        assert(cs.take(cs.len() as int) =~= cs);
    }
    Report { name: suite.name.clone(), stats, failures }
}

/// The deterministic text of a report's failure lines, in order.
pub open spec fn render_failures(fails: Seq<FailureModel>) -> Seq<char>
    decreases fails.len(),
{
    if fails.len() == 0 {
        Seq::empty()
    } else {
        render_failures(fails.drop_last()) + fails.last().path + ": "@ + fails.last().detail
            + "\n"@
    }
}

/// The deterministic text of a whole report: a header with the suite name
/// and counts, then one line per non-passing case, sorted by path.
pub open spec fn render_of(r: ReportModel) -> Seq<char> {
    "suite "@ + r.name + "\n"@ + "total "@ + dec_digits(r.stats.total) + "\n"@ + "passed "@
        + dec_digits(r.stats.passed) + "\n"@ + "correct errors "@ + dec_digits(
        r.stats.correct_error,
    ) + "\n"@ + "mismatches "@ + dec_digits(r.stats.mismatch) + "\n"@ + "parse errors "@
        + dec_digits(r.stats.parse_error) + "\n"@ + "runtime errors "@ + dec_digits(
        r.stats.runtime_error,
    ) + "\n"@ + "incorrectly passed "@ + dec_digits(r.stats.incorrectly_passed) + "\n"@
        + render_failures(r.failures)
}

/// Render a report to its snapshot text. The text is a pure function of
/// the report, so two runs that aggregate to the same report render
/// byte-identical text, whatever order their cases completed in.
pub fn render_report(r: &Report) -> (s: String)
    ensures
        s@ == render_of(r@),
{
    let mut s = "suite ".to_owned();
    s.append(r.name.as_str());
    s.append("\n");
    s.append("total ");
    append_dec(&mut s, r.stats.total as u64);
    s.append("\n");
    s.append("passed ");
    append_dec(&mut s, r.stats.passed as u64);
    s.append("\n");
    s.append("correct errors ");
    append_dec(&mut s, r.stats.correct_error as u64);
    s.append("\n");
    s.append("mismatches ");
    append_dec(&mut s, r.stats.mismatch as u64);
    s.append("\n");
    s.append("parse errors ");
    append_dec(&mut s, r.stats.parse_error as u64);
    s.append("\n");
    s.append("runtime errors ");
    append_dec(&mut s, r.stats.runtime_error as u64);
    s.append("\n");
    s.append("incorrectly passed ");
    append_dec(&mut s, r.stats.incorrectly_passed as u64);
    s.append("\n");
    let ghost header = s@;
    let ghost fails = r.failures.deep_view();
    let mut i: usize = 0;
    proof {
        assert(fails.take(0) =~= Seq::<FailureModel>::empty());
        assert(s@ =~= header + render_failures(fails.take(0)));
    }
    while i < r.failures.len()
        invariant
            i <= r.failures.len(),
            fails == r.failures.deep_view(),
            s@ == header + render_failures(fails.take(i as int)),
        decreases r.failures.len() - i,
    {
        s.append(r.failures[i].path.as_str());
        s.append(": ");
        s.append(r.failures[i].detail.as_str());
        s.append("\n");
        proof {
            assert(fails[i as int] == r.failures@[i as int]@);
            assert(fails.take(i + 1).drop_last() =~= fails.take(i as int));
            assert(fails.take(i + 1).last() == fails[i as int]);
            assert(s@ =~= header + render_failures(fails.take(i + 1)));
        }
        i = i + 1;
    }
    proof {
        assert(fails.take(fails.len() as int) =~= fails);
        assert(s@ =~= render_of(r@));
    }
    s
}

/// Running a suite's cases a second time, with no change to the tool
/// under test or the corpus, renders a byte-identical report.
pub proof fn lemma_second_run_renders_identically<T: Tool>(
    tool: T,
    name: Seq<char>,
    cs: Seq<CaseModel>,
    diff: bool,
)
    ensures
        render_of(report_of(name, run_cases_model(tool, run_cases_model(tool, cs)), diff))
            == render_of(report_of(name, run_cases_model(tool, cs), diff)),
{
    lemma_run_idempotent(tool, cs);
}

/// Path order of a sequence of paths.
pub open spec fn sorted_paths(ps: Seq<Seq<char>>) -> bool {
    forall|i: int, j: int| 0 <= i < j < ps.len() ==> lex_le(#[trigger] ps[i], #[trigger] ps[j])
}

/// Ordering invariant of the report: the failure lines of a path-sorted
/// case list are listed in path order, and every line's path is one of
/// the cases' paths — so the rendered report is sorted by path whatever
/// order the workers completed in.
pub proof fn lemma_failures_sorted(cs: Seq<CaseModel>, diff: bool)
    requires
        sorted_by_path(cs),
    ensures
        sorted_paths(failure_paths(failures_of(cs, diff))),
        forall|m: int|
            0 <= m < failures_of(cs, diff).len() ==> exists|k: int|
                0 <= k < cs.len() && #[trigger] failures_of(cs, diff)[m].path == cs[k].path,
    decreases cs.len(),
{
    lemma_failure_paths(failures_of(cs, diff));
    if cs.len() > 0 {
        let rest = cs.drop_last();
        assert(forall|i: int| 0 <= i < rest.len() ==> #[trigger] rest[i] == cs[i]);
        lemma_failures_sorted(rest, diff);
        lemma_failure_paths(failures_of(rest, diff));
        let fails = failures_of(cs, diff);
        let sub = failures_of(rest, diff);
        assert forall|m: int| 0 <= m < fails.len() implies exists|k: int|
            0 <= k < cs.len() && #[trigger] fails[m].path == cs[k].path by {
            if !is_passing(cs.last().result) && m == fails.len() - 1 {
                assert(fails[m].path == cs[cs.len() - 1].path);
            } else {
                assert(fails[m] == sub[m]);
                let k = choose|k: int| 0 <= k < rest.len() && sub[m].path == rest[k].path;
                assert(fails[m].path == cs[k].path);
            }
        }
        assert forall|i: int, j: int|
            0 <= i < j < failure_paths(fails).len() implies lex_le(
            #[trigger] failure_paths(fails)[i],
            #[trigger] failure_paths(fails)[j],
        ) by {
            if !is_passing(cs.last().result) && j == fails.len() - 1 {
                assert(fails[i] == sub[i]);
                let k = choose|k: int| 0 <= k < rest.len() && sub[i].path == rest[k].path;
                assert(case_le(cs[k], cs[cs.len() - 1]));
                assert(failure_paths(fails)[j] == cs[cs.len() - 1].path);
            } else {
                assert(fails[i] == sub[i] && fails[j] == sub[j]);
                assert(failure_paths(sub)[i] == sub[i].path);
                assert(failure_paths(sub)[j] == sub[j].path);
                assert(lex_le(failure_paths(sub)[i], failure_paths(sub)[j]));
            }
        }
    }
}

/// The report's total is exactly the number of cases the run worked on:
/// under a filter, the size of the matching subset, never the full
/// corpus size (see `lemma_discovered_matches` for the subset bound).
pub proof fn lemma_report_total(name: Seq<char>, cs: Seq<CaseModel>, diff: bool)
    ensures
        report_of(name, cs, diff).stats.total == cs.len(),
{
    lemma_stats_bounds(cs);
}

/// The report of a path-sorted suite lists its failures in path order.
pub proof fn lemma_report_sorted(name: Seq<char>, cs: Seq<CaseModel>, diff: bool)
    requires
        sorted_by_path(cs),
    ensures
        sorted_paths(failure_paths(report_of(name, cs, diff).failures)),
{
    lemma_failures_sorted(cs, diff);
}

/// Mathematical model of a [`Delta`].
#[verifier::ext_equal]
pub struct DeltaModel {
    pub new_failures: Seq<Seq<char>>,
    pub worsened: Seq<Seq<char>>,
    pub fixed: Seq<Seq<char>>,
    pub counts_changed: bool,
}

/// The structured difference between the committed snapshot and a fresh
/// report: newly failing paths, paths whose failure kind worsened, newly
/// passing paths, and whether any aggregate count moved.
pub struct Delta {
    pub new_failures: Vec<String>,
    pub worsened: Vec<String>,
    pub fixed: Vec<String>,
    pub counts_changed: bool,
}

impl View for Delta {
    type V = DeltaModel;

    open spec fn view(&self) -> DeltaModel {
        DeltaModel {
            new_failures: self.new_failures.deep_view(),
            worsened: self.worsened.deep_view(),
            fixed: self.fixed.deep_view(),
            counts_changed: self.counts_changed,
        }
    }
}

/// The failing paths of a report, in order.
pub open spec fn failure_paths(fails: Seq<FailureModel>) -> Seq<Seq<char>>
    decreases fails.len(),
{
    if fails.len() == 0 {
        Seq::empty()
    } else {
        failure_paths(fails.drop_last()).push(fails.last().path)
    }
}

/// The elements of `a` that are not listed in `b`, in order.
pub open spec fn missing_from(a: Seq<Seq<char>>, b: Seq<Seq<char>>) -> Seq<Seq<char>>
    decreases a.len(),
{
    if a.len() == 0 {
        Seq::empty()
    } else {
        let rest = missing_from(a.drop_last(), b);
        if !path_listed(b, a.last()) {
            rest.push(a.last())
        } else {
            rest
        }
    }
}

/// A failure line is worse than the snapshot's: the snapshot also lists
/// its path, but with a result variant of strictly lower rank.
pub open spec fn worse_than(older: Seq<FailureModel>, f: FailureModel) -> bool {
    exists|k: int| 0 <= k < older.len() && (#[trigger] older[k]).path == f.path && older[k].kind
        < f.kind
}

/// The paths of `newer` whose failure kind worsened relative to `older`,
/// in order.
pub open spec fn worsened_paths(
    newer: Seq<FailureModel>,
    older: Seq<FailureModel>,
) -> Seq<Seq<char>>
    decreases newer.len(),
{
    if newer.len() == 0 {
        Seq::empty()
    } else {
        let rest = worsened_paths(newer.drop_last(), older);
        if worse_than(older, newer.last()) {
            rest.push(newer.last().path)
        } else {
            rest
        }
    }
}

/// The delta between the old snapshot and a new report.
pub open spec fn delta_of(older: ReportModel, newer: ReportModel) -> DeltaModel {
    DeltaModel {
        new_failures: missing_from(
            failure_paths(newer.failures),
            failure_paths(older.failures),
        ),
        worsened: worsened_paths(newer.failures, older.failures),
        fixed: missing_from(failure_paths(older.failures), failure_paths(newer.failures)),
        counts_changed: older.stats != newer.stats,
    }
}

/// A run regresses when a path fails that did not fail in the snapshot,
/// when an already-failing path's outcome kind worsened, or when a case
/// expected to fail now silently passes.
pub open spec fn regression(d: DeltaModel, newer: ReportModel) -> bool {
    d.new_failures.len() > 0 || d.worsened.len() > 0 || newer.stats.incorrectly_passed > 0
}

/// Whether a path stands among a report's failure lines.
fn path_in_failures(fails: &Vec<FailureLine>, p: &String) -> (b: bool)
    ensures
        b == path_listed(failure_paths(fails.deep_view()), p@),
{
    let ghost fm = fails.deep_view();
    proof {
        lemma_failure_paths(fm);
    }
    let mut k: usize = 0;
    while k < fails.len()
        invariant
            k <= fails.len(),
            fm == fails.deep_view(),
            failure_paths(fm).len() == fm.len(),
            forall|j: int| 0 <= j < fm.len() ==> #[trigger] failure_paths(fm)[j] == fm[j].path,
            forall|j: int| 0 <= j < k ==> fm[j].path != p@,
        decreases fails.len() - k,
    {
        proof {
            assert(fm[k as int] == fails@[k as int]@);
        }
        if fails[k].path.eq(p) {
            proof {
                assert(failure_paths(fm)[k as int] == p@);
                assert(path_listed(failure_paths(fm), p@));
            }
            return true;
        }
        k = k + 1;
    }
    false
}

/// The failing paths are the failure lines' paths, in order.
pub proof fn lemma_failure_paths(fails: Seq<FailureModel>)
    ensures
        failure_paths(fails).len() == fails.len(),
        forall|j: int|
            0 <= j < fails.len() ==> #[trigger] failure_paths(fails)[j] == fails[j].path,
    decreases fails.len(),
{
    if fails.len() > 0 {
        lemma_failure_paths(fails.drop_last());
        assert(forall|j: int|
            0 <= j < fails.len() - 1 ==> #[trigger] fails.drop_last()[j] == fails[j]);
    }
}

/// One side of the snapshot diff: the failing paths of `newer_fails` that
/// are not failing in `older_fails`.
fn paths_missing_from(newer_fails: &Vec<FailureLine>, older_fails: &Vec<FailureLine>) -> (out:
    Vec<String>)
    ensures
        out.deep_view() == missing_from(
            failure_paths(newer_fails.deep_view()),
            failure_paths(older_fails.deep_view()),
        ),
{
    let ghost np = failure_paths(newer_fails.deep_view());
    let ghost op = failure_paths(older_fails.deep_view());
    proof {
        lemma_failure_paths(newer_fails.deep_view());
    }
    let mut out: Vec<String> = Vec::new();
    let mut i: usize = 0;
    proof {
        assert(np.take(0) =~= Seq::<Seq<char>>::empty());
        assert(out.deep_view() =~= missing_from(np.take(0), op));
    }
    while i < newer_fails.len()
        invariant
            i <= newer_fails.len(),
            np == failure_paths(newer_fails.deep_view()),
            op == failure_paths(older_fails.deep_view()),
            np.len() == newer_fails.len(),
            forall|j: int|
                0 <= j < np.len() ==> #[trigger] np[j] == newer_fails.deep_view()[j].path,
            out.deep_view() == missing_from(np.take(i as int), op),
        decreases newer_fails.len() - i,
    {
        proof {
            assert(newer_fails.deep_view()[i as int] == newer_fails@[i as int]@);
        }
        let ghost opre = out.deep_view();
        let listed = path_in_failures(older_fails, &newer_fails[i].path);
        if !listed {
            let p = newer_fails[i].path.clone();
            let ghost pm = p@;
            let ghost oraw = out@;
            out.push(p);
            proof {
                assert forall|j: int| 0 <= j < out@.len() implies out.deep_view()[j] == opre.push(
                    pm,
                )[j] by {
                    if j < oraw.len() {
                        assert(out@[j] == oraw[j]);
                        assert(opre[j] == oraw[j].deep_view());
                    }
                }
                assert(out.deep_view() =~= opre.push(pm));
            }
        }
        proof {
            assert(np.take(i + 1).drop_last() =~= np.take(i as int));
            assert(np.take(i + 1).last() == np[i as int]);
            assert(out.deep_view() =~= missing_from(np.take(i + 1), op));
        }
        i = i + 1;
    }
    proof {
        assert(np.take(np.len() as int) =~= np);
    }
    out
}

/// Whether two aggregate counts differ in any field.
fn stats_differ(a: &Stats, b: &Stats) -> (d: bool)
    ensures
        d == (a@ != b@),
{
    let differ = a.total != b.total || a.passed != b.passed || a.correct_error != b.correct_error
        || a.mismatch != b.mismatch || a.parse_error != b.parse_error || a.runtime_error
        != b.runtime_error || a.incorrectly_passed != b.incorrectly_passed;
    proof {
        if !differ {
            assert(a@ =~= b@);
        }
    }
    differ
}

/// Whether the snapshot lists this line's path with a strictly lower
/// (better) result kind.
fn worse_line(older: &Vec<FailureLine>, line: &FailureLine) -> (b: bool)
    ensures
        b == worse_than(older.deep_view(), line@),
{
    let ghost om = older.deep_view();
    let mut k: usize = 0;
    while k < older.len()
        invariant
            k <= older.len(),
            om == older.deep_view(),
            forall|j: int|
                0 <= j < k ==> !((#[trigger] om[j]).path == line@.path && om[j].kind
                    < line@.kind),
        decreases older.len() - k,
    {
        proof {
            assert(om[k as int] == older@[k as int]@);
        }
        if older[k].path.eq(&line.path) && older[k].kind < line.kind {
            proof {
                assert(om[k as int].path == line@.path && om[k as int].kind < line@.kind);
            }
            return true;
        }
        k = k + 1;
    }
    false
}

/// The paths of `newer_fails` whose failure kind worsened relative to
/// `older_fails`.
fn paths_worsened(newer_fails: &Vec<FailureLine>, older_fails: &Vec<FailureLine>) -> (out: Vec<
    String,
>)
    ensures
        out.deep_view() == worsened_paths(newer_fails.deep_view(), older_fails.deep_view()),
{
    let ghost nm = newer_fails.deep_view();
    let ghost om = older_fails.deep_view();
    let mut out: Vec<String> = Vec::new();
    let mut i: usize = 0;
    proof {
        assert(nm.take(0) =~= Seq::<FailureModel>::empty());
        assert(out.deep_view() =~= worsened_paths(nm.take(0), om));
    }
    while i < newer_fails.len()
        invariant
            i <= newer_fails.len(),
            nm == newer_fails.deep_view(),
            om == older_fails.deep_view(),
            nm.len() == newer_fails.len(),
            out.deep_view() == worsened_paths(nm.take(i as int), om),
        decreases newer_fails.len() - i,
    {
        proof {
            assert(nm[i as int] == newer_fails@[i as int]@);
        }
        let ghost opre = out.deep_view();
        let worse = worse_line(older_fails, &newer_fails[i]);
        if worse {
            let p = newer_fails[i].path.clone();
            let ghost pm = p@;
            let ghost oraw = out@;
            out.push(p);
            proof {
                assert forall|j: int| 0 <= j < out@.len() implies out.deep_view()[j] == opre.push(
                    pm,
                )[j] by {
                    if j < oraw.len() {
                        assert(out@[j] == oraw[j]);
                        assert(opre[j] == oraw[j].deep_view());
                    }
                }
                assert(out.deep_view() =~= opre.push(pm));
            }
        }
        proof {
            assert(nm.take(i + 1).drop_last() =~= nm.take(i as int));
            assert(nm.take(i + 1).last() == nm[i as int]);
            assert(out.deep_view() =~= worsened_paths(nm.take(i + 1), om));
        }
        i = i + 1;
    }
    proof {
        assert(nm.take(nm.len() as int) =~= nm);
    }
    out
}

/// Diff a fresh report against the committed snapshot: surface newly
/// failing paths, paths whose failure kind worsened, newly passing
/// paths, and changed aggregate counts.
pub fn diff_reports(older: &Report, newer: &Report) -> (d: Delta)
    ensures
        d@ == delta_of(older@, newer@),
{
    let new_failures = paths_missing_from(&newer.failures, &older.failures);
    let worsened = paths_worsened(&newer.failures, &older.failures);
    let fixed = paths_missing_from(&older.failures, &newer.failures);
    let counts_changed = stats_differ(&older.stats, &newer.stats);
    Delta { new_failures, worsened, fixed, counts_changed }
}

/// Whether this delta is a regression (see [`regression`]).
pub fn is_regression(d: &Delta, newer: &Report) -> (b: bool)
    ensures
        b == regression(d@, newer@),
{
    d.new_failures.len() > 0 || d.worsened.len() > 0 || newer.stats.incorrectly_passed > 0
}

/// The committed snapshot for a run name: the first stored report that
/// carries that name, or the empty baseline when none does — a suite's
/// first run is compared against the empty baseline, not an error.
pub open spec fn baseline_for(baselines: Seq<ReportModel>, name: Seq<char>) -> ReportModel
    decreases baselines.len(),
{
    if baselines.len() == 0 {
        empty_report_model(name)
    } else if baselines[0].name == name {
        baselines[0]
    } else {
        baseline_for(baselines.drop_first(), name)
    }
}

impl FailureLine {
    /// Copy one failure line.
    fn clone_line(&self) -> (c: FailureLine)
        ensures
            c@ == self@,
    {
        FailureLine { path: self.path.clone(), kind: self.kind, detail: self.detail.clone() }
    }
}

/// Select the committed snapshot for one run name out of the stored
/// snapshots, or the empty baseline when none carries that name.
pub fn select_baseline(baselines: &Vec<Report>, name: &String) -> (r: Report)
    ensures
        r@ == baseline_for(baselines.deep_view(), name@),
{
    let ghost bm = baselines.deep_view();
    let mut k: usize = 0;
    proof {
        assert(bm.skip(0) =~= bm);
    }
    while k < baselines.len()
        invariant
            k <= baselines.len(),
            bm == baselines.deep_view(),
            baseline_for(bm, name@) == baseline_for(bm.skip(k as int), name@),
        decreases baselines.len() - k,
    {
        proof {
            assert(bm[k as int] == baselines@[k as int]@);
            assert(bm.skip(k as int)[0] == bm[k as int]);
        }
        if baselines[k].name.eq(name) {
            let b = &baselines[k];
            let mut failures: Vec<FailureLine> = Vec::new();
            let mut j: usize = 0;
            proof {
                assert(failures.deep_view() =~= bm[k as int].failures.take(0));
            }
            while j < b.failures.len()
                invariant
                    j <= b.failures.len(),
                    bm == baselines.deep_view(),
                    k < baselines.len(),
                    b == &baselines[k as int],
                    failures.deep_view() == bm[k as int].failures.take(j as int),
                decreases b.failures.len() - j,
            {
                let ghost fpre = failures.deep_view();
                let ghost fraw = failures@;
                let line = b.failures[j].clone_line();
                let ghost lm = line@;
                proof {
                    assert(bm[k as int].failures[j as int] == b.failures@[j as int]@);
                }
                failures.push(line);
                proof {
                    assert forall|m: int| 0 <= m < failures@.len() implies failures.deep_view()[m]
                        == fpre.push(lm)[m] by {
                        if m < fraw.len() {
                            assert(failures@[m] == fraw[m]);
                            assert(fpre[m] == fraw[m].deep_view());
                        }
                    }
                    assert(failures.deep_view() =~= fpre.push(lm));
                    assert(failures.deep_view() =~= bm[k as int].failures.take(j + 1));
                }
                j = j + 1;
            }
            let out = Report {
                name: b.name.clone(),
                stats: Stats {
                    total: b.stats.total,
                    passed: b.stats.passed,
                    correct_error: b.stats.correct_error,
                    mismatch: b.stats.mismatch,
                    parse_error: b.stats.parse_error,
                    runtime_error: b.stats.runtime_error,
                    incorrectly_passed: b.stats.incorrectly_passed,
                },
                failures,
            };
            proof {
                let kk = k as int;
                assert(bm[kk].failures.take(bm[kk].failures.len() as int) =~= bm[kk].failures);
                assert(out@ =~= bm[k as int]);
            }
            return out;
        }
        proof {
            assert(bm.skip(k as int).drop_first() =~= bm.skip(k + 1));
        }
        k = k + 1;
    }
    proof {
        assert(bm.skip(baselines.len() as int) =~= Seq::<ReportModel>::empty());
    }
    Report::empty(name.clone())
}

impl Report {
    /// The empty baseline used when no snapshot was committed yet.
    pub fn empty(name: String) -> (r: Report)
        ensures
            r@ == empty_report_model(name@),
    {
        let r = Report {
            name,
            stats: Stats {
                total: 0,
                passed: 0,
                correct_error: 0,
                mismatch: 0,
                parse_error: 0,
                runtime_error: 0,
                incorrectly_passed: 0,
            },
            failures: Vec::new(),
        };
        proof {
            assert(r@ =~= empty_report_model(r.name@));
        }
        r
    }
}

} // verus!
