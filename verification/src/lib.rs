//! A conformance-test harness core: it runs a toolchain's pipeline stages
//! (parsing, semantic analysis, code generation, transformation,
//! minification, pretty-printing) over corpora of test fixtures,
//! classifies each case's outcome, aggregates the outcomes into a
//! deterministic report, and diffs the report against the previously
//! committed snapshot to surface regressions.

pub mod case;
pub mod report;
pub mod result;
pub mod suite;
pub mod text;
pub mod tools;

use vstd::prelude::*;

use crate::case::Tool;
use crate::report::{
    baseline_for, build_report, delta_of, diff_reports, is_regression, regression, render_of,
    render_report, report_of, select_baseline, Delta, DeltaModel, Report, ReportModel,
};
use crate::suite::{read_cases_model, run_cases_model, Fixture, FixtureModel, Suite};
use crate::tools::{
    CodegenTool, MinifierTool, ParserTool, PrettierTool, SemanticTool, TransformerTool,
    TranspileTool,
};

verus! {

/// Mathematical model of [`AppArgs`].
pub struct ArgsModel {
    pub debug: bool,
    pub filter: Option<Seq<char>>,
    pub detail: bool,
    pub diff: bool,
}

/// The harness's configuration surface: `debug` forces a single-worker
/// run, `filter` restricts which cases execute by path substring, `detail`
/// forces per-case path printing, and `diff` enables inline diagnostic
/// diffing on mismatches.
pub struct AppArgs {
    pub debug: bool,
    pub filter: Option<String>,
    pub detail: bool,
    pub diff: bool,
}

impl View for AppArgs {
    type V = ArgsModel;

    open spec fn view(&self) -> ArgsModel {
        ArgsModel {
            debug: self.debug,
            filter: self.filter.deep_view(),
            detail: self.detail,
            diff: self.diff,
        }
    }
}

impl Default for AppArgs {
    /// All options off: parallel run, no filter, no detail, no diff.
    fn default() -> (a: AppArgs)
        ensures
            a@ == (ArgsModel { debug: false, filter: Option::None, detail: false, diff: false }),
    {
        AppArgs { debug: false, filter: Option::None, detail: false, diff: false }
    }
}

/// The debug and filtered policy runs on a single worker.
pub open spec fn single_worker(args: ArgsModel) -> bool {
    args.debug || args.filter is Some || args.detail
}

/// Mathematical model of a [`Corpus`].
pub struct CorpusModel {
    pub name: Seq<char>,
    pub fixtures: Seq<FixtureModel>,
    pub skipped: Seq<Seq<char>>,
    pub baselines: Seq<ReportModel>,
}

/// One corpus handed to the harness: its name, its discovered fixtures,
/// its externally maintained skip list, and the previously committed
/// snapshots. Each (corpus, stage) pair has a snapshot of its own,
/// selected by the stage-qualified run name; a pair run for the first
/// time has none and is compared against the empty baseline.
pub struct Corpus {
    pub name: String,
    pub fixtures: Vec<Fixture>,
    pub skipped_paths: Vec<String>,
    pub baselines: Vec<Report>,
}

impl View for Corpus {
    type V = CorpusModel;

    open spec fn view(&self) -> CorpusModel {
        CorpusModel {
            name: self.name@,
            fixtures: self.fixtures.deep_view(),
            skipped: self.skipped_paths.deep_view(),
            baselines: self.baselines.deep_view(),
        }
    }
}

impl DeepView for Corpus {
    type V = CorpusModel;

    open spec fn deep_view(&self) -> CorpusModel {
        self.view()
    }
}

/// Mathematical model of a [`SuiteRun`].
#[verifier::ext_equal]
pub struct SuiteRunModel {
    pub name: Seq<char>,
    pub report: ReportModel,
    pub rendered: Seq<char>,
    pub delta: DeltaModel,
    pub regressed: bool,
}

/// Everything one suite run produces: the aggregated report, its rendered
/// snapshot text, the diff against the committed snapshot, and whether
/// the run regressed.
pub struct SuiteRun {
    pub name: String,
    pub report: Report,
    pub rendered: String,
    pub delta: Delta,
    pub regressed: bool,
}

impl View for SuiteRun {
    type V = SuiteRunModel;

    open spec fn view(&self) -> SuiteRunModel {
        SuiteRunModel {
            name: self.name@,
            report: self.report@,
            rendered: self.rendered@,
            delta: self.delta@,
            regressed: self.regressed,
        }
    }
}

impl DeepView for SuiteRun {
    type V = SuiteRunModel;

    open spec fn deep_view(&self) -> SuiteRunModel {
        self.view()
    }
}

/// The snapshot identity of one (corpus, stage) pair: the stage name,
/// an underscore, the corpus name.
pub open spec fn run_name(stage: Seq<char>, corpus: Seq<char>) -> Seq<char> {
    stage + "_"@ + corpus
}

/// What one (corpus, stage) run yields: discover the corpus's cases for
/// this run (the filter cuts non-matching fixtures out before anything
/// executes), run what remains, aggregate, and diff against the
/// committed snapshot of this (corpus, stage) pair — or against the
/// empty baseline on the pair's first run.
pub open spec fn corpus_run_model<T: Tool>(
    tool: T,
    stage: Seq<char>,
    c: CorpusModel,
    args: ArgsModel,
) -> SuiteRunModel {
    let name = run_name(stage, c.name);
    let cases = run_cases_model(tool, read_cases_model(c.fixtures, c.skipped, args.filter));
    let rep = report_of(name, cases, args.diff);
    let delta = delta_of(baseline_for(c.baselines, name), rep);
    SuiteRunModel {
        name,
        report: rep,
        rendered: render_of(rep),
        delta,
        regressed: regression(delta, rep),
    }
}

/// One run per corpus, in order.
pub open spec fn runs_model<T: Tool>(
    tool: T,
    stage: Seq<char>,
    corpora: Seq<CorpusModel>,
    args: ArgsModel,
) -> Seq<SuiteRunModel>
    decreases corpora.len(),
{
    if corpora.len() == 0 {
        Seq::empty()
    } else {
        runs_model(tool, stage, corpora.drop_last(), args).push(
            corpus_run_model(tool, stage, corpora.last(), args),
        )
    }
}

/// Copy a list of paths.
fn clone_paths(v: &Vec<String>) -> (r: Vec<String>)
    ensures
        r@ == v@,
{
    let mut r: Vec<String> = Vec::new();
    let mut i: usize = 0;
    proof {
        assert(r@ =~= v@.take(0));
    }
    while i < v.len()
        invariant
            i <= v.len(),
            r@ == v@.take(i as int),
        decreases v.len() - i,
    {
        r.push(v[i].clone());
        proof {
            assert(r@ =~= v@.take(i + 1));
        }
        i = i + 1;
    }
    proof {
        assert(v@.take(v@.len() as int) =~= v@);
    }
    r
}

/// Run one (corpus, stage) pair: read the cases the filter leaves in,
/// execute them under the configured policy, and report against the
/// pair's committed snapshot.
pub fn run_corpus<T: Tool + Copy + Send + Sync>(
    corpus: &Corpus,
    stage: &str,
    tool: T,
    args: &AppArgs,
) -> (out: SuiteRun)
    ensures
        out@ == corpus_run_model(tool, stage@, corpus@, args@),
{
    let mut name = stage.to_owned();
    name.append("_");
    name.append(corpus.name.as_str());
    let mut suite = Suite::new(name.clone(), clone_paths(&corpus.skipped_paths));
    suite.read_test_cases(&corpus.fixtures, &args.filter);
    if args.uses_single_worker() {
        let mut t = tool;
        suite.run_sequential(&mut t);
    } else {
        suite.run_parallel(&tool);
    }
    let report = build_report(&suite, args.diff);
    let baseline = select_baseline(&corpus.baselines, &name);
    let delta = diff_reports(&baseline, &report);
    let regressed = is_regression(&delta, &report);
    let rendered = render_report(&report);
    let out = SuiteRun { name, report, rendered, delta, regressed };
    proof {
        assert(out@ =~= corpus_run_model(tool, stage@, corpus@, args@));
    }
    out
}

/// Run every corpus in order against one (stage, tool) pair.
fn run_all_corpora<T: Tool + Copy + Send + Sync>(
    tool: T,
    stage: &str,
    corpora: &Vec<Corpus>,
    args: &AppArgs,
) -> (runs: Vec<SuiteRun>)
    ensures
        runs.deep_view() == runs_model(tool, stage@, corpora.deep_view(), args@),
{
    let ghost cm = corpora.deep_view();
    let mut runs: Vec<SuiteRun> = Vec::new();
    let mut i: usize = 0;
    proof {
        assert(cm.take(0) =~= Seq::<CorpusModel>::empty());
        assert(runs.deep_view() =~= runs_model(tool, stage@, cm.take(0), args@));
    }
    while i < corpora.len()
        invariant
            i <= corpora.len(),
            cm == corpora.deep_view(),
            runs.deep_view() == runs_model(tool, stage@, cm.take(i as int), args@),
        decreases corpora.len() - i,
    {
        let out = run_corpus(&corpora[i], stage, tool, args);
        let ghost om = out@;
        let ghost rpre = runs.deep_view();
        let ghost rraw = runs@;
        runs.push(out);
        proof {
            assert(cm[i as int] == corpora@[i as int]@);
            assert forall|j: int| 0 <= j < runs@.len() implies runs.deep_view()[j] == rpre.push(
                om,
            )[j] by {
                if j < rraw.len() {
                    assert(runs@[j] == rraw[j]);
                    assert(rpre[j] == rraw[j].deep_view());
                }
            }
            assert(runs.deep_view() =~= rpre.push(om));
            assert(cm.take(i + 1).drop_last() =~= cm.take(i as int));
            assert(cm.take(i + 1).last() == cm[i as int]);
            assert(runs.deep_view() =~= runs_model(tool, stage@, cm.take(i + 1), args@));
        }
        i = i + 1;
    }
    proof {
        assert(cm.take(cm.len() as int) =~= cm);
    }
    runs
}

/// Move every run of `src` onto the end of `dst`.
fn append_runs(dst: &mut Vec<SuiteRun>, src: Vec<SuiteRun>)
    ensures
        final(dst).deep_view() == old(dst).deep_view() + src.deep_view(),
{
    let ghost sm = src.deep_view();
    let mut src = src;
    let ghost mut moved: int = 0;
    proof {
        assert(src.deep_view() =~= sm.skip(0));
        assert(dst.deep_view() =~= old(dst).deep_view() + sm.take(0));
    }
    while src.len() > 0
        invariant
            0 <= moved <= sm.len(),
            moved + src.len() == sm.len(),
            src.deep_view() == sm.skip(moved),
            dst.deep_view() == old(dst).deep_view() + sm.take(moved),
        decreases src.len(),
    {
        let ghost k = moved;
        let ghost spre = src@;
        let ghost spre_dv = src.deep_view();
        let x = src.remove(0);
        proof {
            assert(spre_dv[0] == spre[0].deep_view());
            assert(x@ == sm.skip(k)[0]);
            assert(sm.skip(k)[0] == sm[k]);
            assert forall|j: int| 0 <= j < src@.len() implies src.deep_view()[j] == sm.skip(
                k + 1,
            )[j] by {
                assert(src@[j] == spre[j + 1]);
                assert(spre_dv[j + 1] == spre[j + 1].deep_view());
                assert(spre_dv[j + 1] == sm.skip(k)[j + 1]);
            }
            assert(src.deep_view() =~= sm.skip(k + 1));
        }
        let ghost xm = x@;
        let ghost dpre = dst.deep_view();
        let ghost draw = dst@;
        dst.push(x);
        proof {
            assert forall|j: int| 0 <= j < dst@.len() implies dst.deep_view()[j] == dpre.push(
                xm,
            )[j] by {
                if j < draw.len() {
                    assert(dst@[j] == draw[j]);
                    assert(dpre[j] == draw[j].deep_view());
                }
            }
            assert(dst.deep_view() =~= dpre.push(xm));
            assert(sm.take(k + 1).drop_last() =~= sm.take(k));
            assert(sm.take(k + 1).last() == sm[k]);
            assert(dst.deep_view() =~= old(dst).deep_view() + sm.take(k + 1));
        }
        proof {
            moved = moved + 1;
        }
    }
    proof {
        assert(sm.take(sm.len() as int) =~= sm);
    }
}

impl AppArgs {
    /// Per-case paths are printed when a filter is set or detail is asked
    /// for.
    pub fn should_print_detail(&self) -> (b: bool)
        ensures
            b == (self@.filter is Some || self@.detail),
    {
        self.filter.is_some() || self.detail
    }

    /// Whether this configuration forces the single-worker policy.
    pub fn uses_single_worker(&self) -> (b: bool)
        ensures
            b == single_worker(self@),
    {
        self.debug || self.filter.is_some() || self.detail
    }

    /// Run the parser stage over every corpus.
    pub fn run_parser(&self, corpora: &Vec<Corpus>) -> (runs: Vec<SuiteRun>)
        ensures
            runs.deep_view() == runs_model(ParserTool {  }, "parser"@, corpora.deep_view(), self@),
    {
        run_all_corpora(ParserTool {  }, "parser", corpora, self)
    }

    /// Run the semantic-analysis stage over every corpus.
    pub fn run_semantic(&self, corpora: &Vec<Corpus>) -> (runs: Vec<SuiteRun>)
        ensures
            runs.deep_view() == runs_model(SemanticTool {  }, "semantic"@, corpora.deep_view(), self@),
    {
        run_all_corpora(SemanticTool {  }, "semantic", corpora, self)
    }

    /// Run the code-generation stage over every corpus.
    pub fn run_codegen(&self, corpora: &Vec<Corpus>) -> (runs: Vec<SuiteRun>)
        ensures
            runs.deep_view() == runs_model(CodegenTool {  }, "codegen"@, corpora.deep_view(), self@),
    {
        run_all_corpora(CodegenTool {  }, "codegen", corpora, self)
    }

    /// Run the pretty-printing stage over every corpus.
    pub fn run_prettier(&self, corpora: &Vec<Corpus>) -> (runs: Vec<SuiteRun>)
        ensures
            runs.deep_view() == runs_model(PrettierTool {  }, "prettier"@, corpora.deep_view(), self@),
    {
        run_all_corpora(PrettierTool {  }, "prettier", corpora, self)
    }

    /// Run the transformation stage over every corpus.
    pub fn run_transformer(&self, corpora: &Vec<Corpus>) -> (runs: Vec<SuiteRun>)
        ensures
            runs.deep_view() == runs_model(TransformerTool {  }, "transformer"@, corpora.deep_view(), self@),
    {
        run_all_corpora(TransformerTool {  }, "transformer", corpora, self)
    }

    /// Run the TypeScript transpile stage over every corpus.
    pub fn run_transpiler(&self, corpora: &Vec<Corpus>) -> (runs: Vec<SuiteRun>)
        ensures
            runs.deep_view() == runs_model(TranspileTool {  }, "transpile"@, corpora.deep_view(), self@),
    {
        run_all_corpora(TranspileTool {  }, "transpile", corpora, self)
    }

    /// Run the minification stage over every corpus.
    pub fn run_minifier(&self, corpora: &Vec<Corpus>) -> (runs: Vec<SuiteRun>)
        ensures
            runs.deep_view() == runs_model(MinifierTool {  }, "minifier"@, corpora.deep_view(), self@),
    {
        run_all_corpora(MinifierTool {  }, "minifier", corpora, self)
    }

    /// Run the default stage set over every corpus, in order: parser,
    /// semantic analysis, code generation, transformation, transpile,
    /// minification.
    pub fn run_default(&self, corpora: &Vec<Corpus>) -> (runs: Vec<SuiteRun>)
        ensures
            runs.deep_view() == runs_model(ParserTool {  }, "parser"@, corpora.deep_view(), self@)
                + runs_model(SemanticTool {  }, "semantic"@, corpora.deep_view(), self@)
                + runs_model(CodegenTool {  }, "codegen"@, corpora.deep_view(), self@)
                + runs_model(TransformerTool {  }, "transformer"@, corpora.deep_view(), self@)
                + runs_model(TranspileTool {  }, "transpile"@, corpora.deep_view(), self@)
                + runs_model(MinifierTool {  }, "minifier"@, corpora.deep_view(), self@),
    {
        let mut runs = self.run_parser(corpora);
        append_runs(&mut runs, self.run_semantic(corpora));
        append_runs(&mut runs, self.run_codegen(corpora));
        append_runs(&mut runs, self.run_transformer(corpora));
        append_runs(&mut runs, self.run_transpiler(corpora));
        append_runs(&mut runs, self.run_minifier(corpora));
        runs
    }
}

} // verus!
