use coverage::case::{Case, TestUnit};
use coverage::report::build_report;
use coverage::result::TestResult;
use coverage::suite::{Fixture, Suite};
use coverage::tools::{CodegenTool, MinifierTool, ParserTool, SemanticTool, TranspileTool};
use coverage::{run_corpus, AppArgs, Corpus};

fn fixture(path: &str, code: &str, should_fail: bool) -> Fixture {
    Fixture {
        path: path.to_string(),
        code: code.to_string(),
        should_fail,
        module: false,
        typescript: false,
        both_modes: false,
    }
}

fn js_case(path: &str, code: &str, should_fail: bool) -> Case {
    let units = vec![TestUnit { content: code.to_string(), module: false, typescript: false }];
    Case::new(path.to_string(), code.to_string(), should_fail, units)
}

#[test]
fn parser_accepts_valid_source() {
    let mut tool = ParserTool {};
    let mut c = js_case("a.js", "var answer = 42;", false);
    c.run(&mut tool);
    assert!(c.result.is_passed());
}

#[test]
fn parser_reports_invalid_source() {
    let mut tool = ParserTool {};
    let mut c = js_case("c.js", "var = ;", false);
    c.run(&mut tool);
    match c.result {
        TestResult::ParseError { diagnostics } => assert!(!diagnostics.is_empty()),
        other => panic!("expected ParseError, got rank {}", other.rank_of()),
    }
}

#[test]
fn semantic_flags_redeclaration() {
    let mut tool = SemanticTool {};
    let mut c = js_case("s.js", "let a = 1; let a = 2;", false);
    c.run(&mut tool);
    assert!(!c.result.is_passing());
}

#[test]
fn codegen_round_trips() {
    let mut tool = CodegenTool {};
    let mut c = js_case("g.js", "var spaced   =   1  +  2 ;", false);
    c.run(&mut tool);
    assert!(c.result.is_passed());
}

#[test]
fn minifier_output_still_parses() {
    let mut tool = MinifierTool {};
    let mut c = js_case("m.js", "var kept = 1 + 2; console.log(kept);", false);
    c.run(&mut tool);
    assert!(c.result.is_passed());
}

#[test]
fn transpiler_accepts_typescript() {
    let mut tool = TranspileTool {};
    let mut c = js_case("t.ts", "const n: number = 1;", false);
    c.run(&mut tool);
    assert!(c.result.is_passing());
}

#[test]
fn end_to_end_corpus_report_and_baseline_diff() {
    let corpus = Corpus {
        name: "demo".to_string(),
        fixtures: vec![
            fixture("a.js", "var ok = 1;", false),
            fixture("b.js", "function (", true),
            fixture("c.js", "var = ;", false),
        ],
        skipped_paths: vec![],
        baselines: vec![],
    };
    let args = AppArgs::default();
    let out = run_corpus(&corpus, "parser", ParserTool {}, &args);
    assert_eq!(out.name, "parser_demo");
    assert_eq!(out.report.stats.total, 3);
    assert_eq!(out.report.stats.passed, 2);
    assert_eq!(out.report.stats.correct_error, 1);
    assert_eq!(out.report.stats.parse_error, 1);
    assert_eq!(out.report.failures.len(), 1);
    assert_eq!(out.report.failures[0].path, "c.js");
    assert_eq!(out.delta.new_failures, vec!["c.js".to_string()]);
    assert!(out.regressed);
}

#[test]
fn parallel_and_single_worker_render_identical_reports() {
    let fixtures = vec![
        fixture("z.js", "var ok = 1;", false),
        fixture("a.js", "var = ;", false),
        fixture("m.js", "var ok = 2;", false),
    ];
    let mut parallel_suite = Suite::new("s".to_string(), vec![]);
    parallel_suite.read_test_cases(&fixtures, &None);
    parallel_suite.run_parallel(&ParserTool {});
    let parallel_text =
        coverage::report::render_report(&build_report(&parallel_suite, false));

    let mut single_suite = Suite::new("s".to_string(), vec![]);
    single_suite.read_test_cases(&fixtures, &None);
    let mut tool = ParserTool {};
    single_suite.run_sequential(&mut tool);
    let single_text = coverage::report::render_report(&build_report(&single_suite, false));

    assert_eq!(parallel_text, single_text);
}

#[test]
fn regression_detected_against_previous_snapshot() {
    let fixtures = vec![fixture("a.js", "var ok = 1;", false), fixture("b.js", "var = ;", false)];
    let clean = Corpus {
        name: "p".to_string(),
        fixtures: vec![fixture("a.js", "var ok = 1;", false)],
        skipped_paths: vec![],
        baselines: vec![],
    };
    let args = AppArgs::default();
    let first = run_corpus(&clean, "parser", ParserTool {}, &args);
    assert!(!first.regressed);
    assert_eq!(first.report.name, "parser_p");
    let broken = Corpus {
        name: "p".to_string(),
        fixtures,
        skipped_paths: vec![],
        baselines: vec![first.report],
    };
    let second = run_corpus(&broken, "parser", ParserTool {}, &args);
    assert_eq!(second.delta.new_failures, vec!["b.js".to_string()]);
    assert!(second.regressed);
}

#[test]
fn filtered_run_uses_single_worker_policy() {
    let args = AppArgs { debug: false, filter: Some("a.js".to_string()), detail: false, diff: false };
    assert!(args.uses_single_worker());
    assert!(args.should_print_detail());
    let corpus = Corpus {
        name: "p".to_string(),
        fixtures: vec![fixture("a.js", "var ok = 1;", false), fixture("b.js", "var = ;", false)],
        skipped_paths: vec![],
        baselines: vec![],
    };
    let out = run_corpus(&corpus, "parser", ParserTool {}, &args);
    assert_eq!(out.report.stats.total, 1);
    assert_eq!(out.report.stats.passed, 1);
    assert!(out.report.failures.is_empty());
}

#[test]
fn stage_entry_points_cover_every_corpus() {
    let corpora = vec![Corpus {
        name: "demo".to_string(),
        fixtures: vec![fixture("a.js", "var ok = 1;", false)],
        skipped_paths: vec![],
        baselines: vec![],
    }];
    let args = AppArgs::default();
    assert_eq!(args.run_parser(&corpora).len(), 1);
    assert_eq!(args.run_semantic(&corpora).len(), 1);
    assert_eq!(args.run_codegen(&corpora).len(), 1);
    assert_eq!(args.run_prettier(&corpora).len(), 1);
    assert_eq!(args.run_transformer(&corpora).len(), 1);
    assert_eq!(args.run_transpiler(&corpora).len(), 1);
    assert_eq!(args.run_minifier(&corpora).len(), 1);
    let all = args.run_default(&corpora);
    assert_eq!(all.len(), 6);
    let names: Vec<&str> = all.iter().map(|r| r.name.as_str()).collect();
    assert_eq!(
        names,
        vec![
            "parser_demo",
            "semantic_demo",
            "codegen_demo",
            "transformer_demo",
            "transpile_demo",
            "minifier_demo",
        ]
    );
}
