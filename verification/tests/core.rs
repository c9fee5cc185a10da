use coverage::case::{derive_units, Case, TestUnit};
use coverage::report::{build_report, diff_reports, is_regression, render_report, FailureLine, Report};
use coverage::result::{reconcile, TestResult};
use coverage::suite::{Fixture, Suite};
use coverage::text::{append_dec, str_contains, str_le};
use coverage::tools::CountingTool;
use coverage::AppArgs;

fn unit(content: &str) -> TestUnit {
    TestUnit { content: content.to_string(), module: false, typescript: false }
}

fn case_of(path: &str, units: Vec<TestUnit>, should_fail: bool) -> Case {
    Case::new(path.to_string(), String::new(), should_fail, units)
}

#[test]
fn test() {
    let args = AppArgs::default();
    let runs = args.run_default(&vec![]);
    assert!(runs.is_empty());
}

#[test]
fn reconcile_is_pure() {
    match reconcile(true, TestResult::Passed) {
        TestResult::IncorrectlyPassed => {}
        other => panic!("expected IncorrectlyPassed, got rank {}", other.rank_of()),
    }
    match reconcile(true, TestResult::ParseError { diagnostics: vec!["d".to_string()] }) {
        TestResult::CorrectError => {}
        other => panic!("expected CorrectError, got rank {}", other.rank_of()),
    }
    match reconcile(false, TestResult::RuntimeError { message: "m".to_string() }) {
        TestResult::RuntimeError { message } => assert_eq!(message, "m"),
        other => panic!("expected RuntimeError, got rank {}", other.rank_of()),
    }
    match reconcile(false, TestResult::Passed) {
        TestResult::Passed => {}
        other => panic!("expected Passed, got rank {}", other.rank_of()),
    }
}

#[test]
fn result_order_is_stable() {
    let ranks = [
        TestResult::Passed.rank_of(),
        TestResult::CorrectError.rank_of(),
        TestResult::Mismatch { expected: false, actual_diagnostics: vec![] }.rank_of(),
        TestResult::ParseError { diagnostics: vec![] }.rank_of(),
        TestResult::RuntimeError { message: String::new() }.rank_of(),
        TestResult::IncorrectlyPassed.rank_of(),
    ];
    for w in ranks.windows(2) {
        assert!(w[0] < w[1]);
    }
}

#[test]
fn short_circuit_stops_at_first_failure() {
    let mut tool = CountingTool { calls: 0 };
    let mut c = case_of("a.js", vec![unit("ok"), unit("!bad"), unit("!never"), unit("ok")], false);
    let evaluated = c.run(&mut tool);
    assert_eq!(evaluated, 2);
    assert_eq!(tool.calls, 2);
    match c.result {
        TestResult::ParseError { diagnostics } => {
            assert_eq!(diagnostics, vec!["scripted failure".to_string()])
        }
        other => panic!("expected ParseError, got rank {}", other.rank_of()),
    }
}

#[test]
fn all_units_passing_yields_passed() {
    let mut tool = CountingTool { calls: 0 };
    let mut c = case_of("a.js", vec![unit("ok"), unit("fine")], false);
    let evaluated = c.run(&mut tool);
    assert_eq!(evaluated, 2);
    assert!(c.result.is_passed());
}

#[test]
fn expected_failure_reconciles_to_correct_error() {
    let mut tool = CountingTool { calls: 0 };
    let mut c = case_of("b.js", vec![unit("!bad")], true);
    c.run(&mut tool);
    match c.result {
        TestResult::CorrectError => {}
        other => panic!("expected CorrectError, got rank {}", other.rank_of()),
    }
}

#[test]
fn expected_failure_that_passes_is_incorrectly_passed() {
    let mut tool = CountingTool { calls: 0 };
    let mut c = case_of("b.js", vec![unit("ok")], true);
    c.run(&mut tool);
    match c.result {
        TestResult::IncorrectlyPassed => {}
        other => panic!("expected IncorrectlyPassed, got rank {}", other.rank_of()),
    }
}

fn fixture(path: &str, code: &str, should_fail: bool) -> Fixture {
    Fixture {
        path: path.to_string(),
        code: code.to_string(),
        should_fail,
        module: false,
        typescript: false,
        both_modes: false,
    }
}

#[test]
fn suite_sorts_cases_by_path() {
    let mut suite = Suite::new("s".to_string(), vec![]);
    suite.read_test_cases(
        &vec![
            fixture("c.js", "1", false),
            fixture("a.js", "1", false),
            fixture("b.js", "1", false),
        ],
        &None,
    );
    let paths: Vec<&str> = suite.test_cases.iter().map(|c| c.path.as_str()).collect();
    assert_eq!(paths, vec!["a.js", "b.js", "c.js"]);
}

#[test]
fn suite_respects_skip_list() {
    let mut suite = Suite::new("s".to_string(), vec!["b.js".to_string()]);
    suite.read_test_cases(&vec![fixture("a.js", "1", false), fixture("b.js", "1", false)], &None);
    assert_eq!(suite.test_cases.len(), 1);
    assert_eq!(suite.test_cases[0].path, "a.js");
}

#[test]
fn rerunning_a_suite_renders_identical_reports() {
    let mut suite = Suite::new("s".to_string(), vec![]);
    suite.read_test_cases(
        &vec![fixture("a.js", "ok", false), fixture("b.js", "!bad", false)],
        &None,
    );
    let mut tool = CountingTool { calls: 0 };
    suite.run_sequential(&mut tool);
    let first = render_report(&build_report(&suite, false));
    suite.run_sequential(&mut tool);
    let second = render_report(&build_report(&suite, false));
    assert_eq!(first, second);
}

#[test]
fn filter_excludes_non_matching_cases_from_the_run() {
    let fixtures = vec![
        fixture("dir/foo_case.js", "ok", false),
        fixture("dir/bar_case.js", "ok", false),
        fixture("other/foo.js", "!bad", false),
    ];
    let mut suite = Suite::new("s".to_string(), vec![]);
    suite.read_test_cases(&fixtures, &Some("foo".to_string()));
    assert_eq!(suite.test_cases.len(), 2);
    let mut tool = CountingTool { calls: 0 };
    suite.run_sequential(&mut tool);
    assert_eq!(tool.calls, 2);
    let report = build_report(&suite, false);
    assert_eq!(report.stats.total, 2);
    assert_eq!(report.stats.passed, 1);
    assert_eq!(report.stats.parse_error, 1);
    assert_eq!(report.failures.len(), 1);
    assert_eq!(report.failures[0].path, "other/foo.js");

    let mut full_suite = Suite::new("s".to_string(), vec![]);
    full_suite.read_test_cases(&fixtures, &None);
    assert_eq!(full_suite.test_cases.len(), 3);
    let mut full_tool = CountingTool { calls: 0 };
    full_suite.run_sequential(&mut full_tool);
    assert_eq!(full_tool.calls, 3);
    assert_eq!(build_report(&full_suite, false).stats.total, 3);
}

#[test]
fn strict_variant_prepends_prologue() {
    let units = derive_units(&"var x;".to_string(), false, false, true);
    assert_eq!(units.len(), 2);
    assert_eq!(units[0].content, "var x;");
    assert_eq!(units[1].content, "\"use strict\";\nvar x;");
    let single = derive_units(&"var x;".to_string(), true, false, false);
    assert_eq!(single.len(), 1);
    assert!(single[0].module);
}

#[test]
fn decimal_rendering_is_exact() {
    let mut s = String::new();
    append_dec(&mut s, 0);
    assert_eq!(s, "0");
    let mut s = String::new();
    append_dec(&mut s, 1234567890);
    assert_eq!(s, "1234567890");
}

#[test]
fn lexicographic_string_order() {
    assert!(str_le("a", "b"));
    assert!(str_le("a", "a"));
    assert!(str_le("a", "ab"));
    assert!(!str_le("ab", "a"));
    assert!(!str_le("b", "ab"));
}

#[test]
fn substring_search() {
    assert!(str_contains("dir/foo_case.js", "foo"));
    assert!(str_contains("anything", ""));
    assert!(!str_contains("dir/bar.js", "foo"));
    assert!(!str_contains("fo", "foo"));
}

#[test]
fn empty_report_renders_header_only() {
    let r = Report::empty("demo".to_string());
    let text = render_report(&r);
    assert_eq!(
        text,
        "suite demo\ntotal 0\npassed 0\ncorrect errors 0\nmismatches 0\nparse errors 0\nruntime errors 0\nincorrectly passed 0\n"
    );
}

#[test]
fn diff_lists_new_and_fixed_failures() {
    let mut suite = Suite::new("s".to_string(), vec![]);
    suite.read_test_cases(
        &vec![fixture("a.js", "ok", false), fixture("c.js", "!bad", false)],
        &None,
    );
    let mut tool = CountingTool { calls: 0 };
    suite.run_sequential(&mut tool);
    let report = build_report(&suite, false);
    let empty = Report::empty("s".to_string());
    let delta = diff_reports(&empty, &report);
    assert_eq!(delta.new_failures, vec!["c.js".to_string()]);
    assert!(delta.worsened.is_empty());
    assert!(delta.fixed.is_empty());
    assert!(delta.counts_changed);
    let same = diff_reports(&report, &report);
    assert!(same.new_failures.is_empty());
    assert!(same.worsened.is_empty());
    assert!(same.fixed.is_empty());
    assert!(!same.counts_changed);
}

fn failure_only_report(name: &str, line: FailureLine) -> Report {
    let mut r = Report::empty(name.to_string());
    r.stats.total = 1;
    r.failures.push(line);
    r
}

#[test]
fn worsened_failure_kind_is_a_regression() {
    let older = failure_only_report(
        "s",
        FailureLine { path: "m.js".to_string(), kind: 2, detail: "mismatch".to_string() },
    );
    let newer = failure_only_report(
        "s",
        FailureLine { path: "m.js".to_string(), kind: 4, detail: "runtime error".to_string() },
    );
    let delta = diff_reports(&older, &newer);
    assert!(delta.new_failures.is_empty());
    assert_eq!(delta.worsened, vec!["m.js".to_string()]);
    assert!(is_regression(&delta, &newer));
    let improved = diff_reports(&newer, &older);
    assert!(improved.worsened.is_empty());
    assert!(!is_regression(&improved, &older));
}

#[test]
fn mismatch_diff_rendering_inlines_diagnostics() {
    let mut suite = Suite::new("s".to_string(), vec![]);
    let mut c = case_of("m.js", vec![], false);
    c.result = TestResult::Mismatch {
        expected: true,
        actual_diagnostics: vec!["one".to_string(), "two".to_string()],
    };
    suite.test_cases.push(c);
    let with_diff = build_report(&suite, true);
    assert_eq!(with_diff.failures[0].detail, "mismatch: one | two");
    assert_eq!(with_diff.failures[0].kind, 2);
    let without = build_report(&suite, false);
    assert_eq!(without.failures[0].detail, "mismatch");
}
