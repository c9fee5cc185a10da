//! Cases and units: one case per discovered fixture, expanded into one or
//! more executable units, run in order with a short-circuit on the first
//! unit that does not pass.

use vstd::prelude::*;
use vstd::string::StringExecFns;

use crate::result::{reconcile, reconciled, ResultModel, TestResult};

verus! {

/// Mathematical model of a [`TestUnit`].
#[verifier::ext_equal]
pub struct UnitModel {
    pub content: Seq<char>,
    pub module: bool,
    pub typescript: bool,
}

/// One executable fragment derived from a source file: the text to hand to
/// the tool under test together with its dialect flags.
pub struct TestUnit {
    pub content: String,
    pub module: bool,
    pub typescript: bool,
}

impl View for TestUnit {
    type V = UnitModel;

    open spec fn view(&self) -> UnitModel {
        UnitModel { content: self.content@, module: self.module, typescript: self.typescript }
    }
}

impl DeepView for TestUnit {
    type V = UnitModel;

    open spec fn deep_view(&self) -> UnitModel {
        self.view()
    }
}

/// The prefix that puts a script unit into strict mode.
pub open spec fn strict_prefix() -> Seq<char> {
    "\"use strict\";\n"@
}

/// The units a fixture's source text expands to (see [`derive_units`]).
pub open spec fn derived_units(
    code: Seq<char>,
    module: bool,
    typescript: bool,
    both_modes: bool,
) -> Seq<UnitModel> {
    if both_modes {
        seq![
            UnitModel { content: code, module: false, typescript },
            UnitModel { content: strict_prefix() + code, module: false, typescript },
        ]
    } else {
        seq![UnitModel { content: code, module, typescript }]
    }
}

/// Derive the executable units of a fixture from its source text.
///
/// A fixture that must hold both in sloppy and in strict mode yields two
/// script units, the second with the strict-mode prologue prepended; any
/// other fixture yields a single unit with its declared dialect.
pub fn derive_units(code: &String, module: bool, typescript: bool, both_modes: bool) -> (units:
    Vec<TestUnit>)
    ensures
        units.deep_view() == derived_units(code@, module, typescript, both_modes),
{
    let mut units: Vec<TestUnit> = Vec::new();
    if both_modes {
        units.push(TestUnit { content: code.clone(), module: false, typescript });
        let mut strict_code = "\"use strict\";\n".to_owned();
        strict_code.append(code.as_str());
        units.push(TestUnit { content: strict_code, module: false, typescript });
    } else {
        units.push(TestUnit { content: code.clone(), module, typescript });
    }
    proof {
        assert(units.deep_view() =~= derived_units(code@, module, typescript, both_modes));
    }
    units
}

/// A pipeline-stage strategy: executing one unit produces one raw outcome,
/// a pure function of the unit alone, unchanged by earlier executions.
pub trait Tool: Sized {
    /// The raw outcome this tool assigns to a unit.
    spec fn outcome_of(&self, unit: UnitModel) -> ResultModel;

    /// Execute one unit against the tool under test.
    fn execute(&mut self, unit: &TestUnit) -> (r: TestResult)
        ensures
            r@ == old(self).outcome_of(unit@),
            forall|u: UnitModel| #[trigger]
                final(self).outcome_of(u) == old(self).outcome_of(u),
    ;
}

/// The raw outcomes a tool assigns to a sequence of units.
pub open spec fn outcomes_of<T: Tool>(tool: T, units: Seq<UnitModel>) -> Seq<ResultModel> {
    units.map_values(|u: UnitModel| tool.outcome_of(u))
}

/// The raw result of running units in order: the first non-passing outcome,
/// or `Passed` when every unit passes.
pub open spec fn raw_result(outcomes: Seq<ResultModel>) -> ResultModel
    decreases outcomes.len(),
{
    if outcomes.len() == 0 {
        ResultModel::Passed
    } else if !(outcomes[0] is Passed) {
        outcomes[0]
    } else {
        raw_result(outcomes.drop_first())
    }
}

/// How many units a short-circuiting run evaluates: everything up to and
/// including the first non-passing one.
pub open spec fn evaluated_count(outcomes: Seq<ResultModel>) -> int
    decreases outcomes.len(),
{
    if outcomes.len() == 0 {
        0
    } else if !(outcomes[0] is Passed) {
        1
    } else {
        1 + evaluated_count(outcomes.drop_first())
    }
}

/// Peeling a fully-passing prefix off a run changes neither its result nor
/// which units beyond the prefix are evaluated.
pub proof fn lemma_raw_result_skip(outcomes: Seq<ResultModel>, i: int)
    requires
        0 <= i <= outcomes.len(),
        forall|j: int| 0 <= j < i ==> outcomes[j] is Passed,
    ensures
        raw_result(outcomes) == raw_result(outcomes.skip(i)),
        evaluated_count(outcomes) == i + evaluated_count(outcomes.skip(i)),
    decreases i,
{
    if i > 0 {
        assert(outcomes[0] is Passed);
        assert(forall|j: int|
            0 <= j < i - 1 ==> #[trigger] outcomes.drop_first()[j] == outcomes[j + 1]);
        lemma_raw_result_skip(outcomes.drop_first(), i - 1);
        assert(outcomes.drop_first().skip(i - 1) =~= outcomes.skip(i));
    } else {
        assert(outcomes.skip(0) =~= outcomes);
    }
}

/// A run passes exactly when every unit passes; a fully-passing run
/// evaluates every unit.
pub proof fn lemma_raw_result_passed_iff(outcomes: Seq<ResultModel>)
    ensures
        (raw_result(outcomes) is Passed) <==> (forall|j: int|
            0 <= j < outcomes.len() ==> outcomes[j] is Passed),
        (forall|j: int| 0 <= j < outcomes.len() ==> outcomes[j] is Passed)
            ==> evaluated_count(outcomes) == outcomes.len(),
    decreases outcomes.len(),
{
    if outcomes.len() > 0 && outcomes[0] is Passed {
        lemma_raw_result_passed_iff(outcomes.drop_first());
        assert(forall|j: int|
            0 <= j < outcomes.len() - 1 ==> #[trigger] outcomes.drop_first()[j] == outcomes[j
                + 1]);
        assert(forall|j: int|
            1 <= j < outcomes.len() ==> #[trigger] outcomes[j] == outcomes.drop_first()[j - 1]);
    }
}

/// Short-circuit law: when unit `k` is the first that does not pass, the
/// run's result is that unit's outcome, exactly `k + 1` units are
/// evaluated, and the outcomes of all later units are irrelevant.
pub proof fn lemma_short_circuit(outcomes: Seq<ResultModel>, k: int)
    requires
        0 <= k < outcomes.len(),
        forall|j: int| 0 <= j < k ==> outcomes[j] is Passed,
        !(outcomes[k] is Passed),
    ensures
        raw_result(outcomes) == outcomes[k],
        evaluated_count(outcomes) == k + 1,
        forall|tail: Seq<ResultModel>|
            raw_result(#[trigger] (outcomes.take(k + 1) + tail)) == outcomes[k]
                && evaluated_count(outcomes.take(k + 1) + tail) == k + 1,
{
    lemma_raw_result_skip(outcomes, k);
    assert(outcomes.skip(k)[0] == outcomes[k]);
    assert forall|tail: Seq<ResultModel>|
        raw_result(#[trigger] (outcomes.take(k + 1) + tail)) == outcomes[k]
            && evaluated_count(outcomes.take(k + 1) + tail) == k + 1 by {
        let s = outcomes.take(k + 1) + tail;
        assert(forall|j: int| 0 <= j < k ==> #[trigger] s[j] == outcomes[j]);
        assert(s[k] == outcomes[k]);
        lemma_raw_result_skip(s, k);
        assert(s.skip(k)[0] == outcomes[k]);
    }
}

/// Mathematical model of a [`Case`].
#[verifier::ext_equal]
pub struct CaseModel {
    pub path: Seq<char>,
    pub code: Seq<char>,
    pub units: Seq<UnitModel>,
    pub should_fail: bool,
    pub result: ResultModel,
}

/// One discovered fixture: its path, its working source buffer, its derived
/// units, the corpus's declared expectation, and the last computed outcome.
pub struct Case {
    pub path: String,
    pub code: String,
    pub units: Vec<TestUnit>,
    pub should_fail: bool,
    pub result: TestResult,
}

impl DeepView for Case {
    type V = CaseModel;

    open spec fn deep_view(&self) -> CaseModel {
        self.view()
    }
}

impl View for Case {
    type V = CaseModel;

    open spec fn view(&self) -> CaseModel {
        CaseModel {
            path: self.path@,
            code: self.code@,
            units: self.units.deep_view(),
            should_fail: self.should_fail,
            result: self.result@,
        }
    }
}

/// The result a run assigns to a case: the short-circuited raw result of
/// its units under the given tool, reconciled with its expectation.
pub open spec fn run_result<T: Tool>(tool: T, c: CaseModel) -> ResultModel {
    reconciled(c.should_fail, raw_result(outcomes_of(tool, c.units)))
}

/// The whole state of a case after one run: the reconciled result, the
/// working buffer left at the last evaluated unit's content, and every
/// other field unchanged.
pub open spec fn run_case_model<T: Tool>(tool: T, c: CaseModel) -> CaseModel {
    let outs = outcomes_of(tool, c.units);
    let k = evaluated_count(outs);
    CaseModel {
        path: c.path,
        code: if k > 0 {
            c.units[k - 1].content
        } else {
            c.code
        },
        units: c.units,
        should_fail: c.should_fail,
        result: reconciled(c.should_fail, raw_result(outs)),
    }
}

impl Case {
    /// Construct a case for one discovered fixture; its result starts as
    /// `Passed` and is overwritten by every run.
    pub fn new(path: String, code: String, should_fail: bool, units: Vec<TestUnit>) -> (c: Case)
        ensures
            c@ == (CaseModel {
                path: path@,
                code: code@,
                units: units.deep_view(),
                should_fail,
                result: ResultModel::Passed,
            }),
    {
        Case { path, code, units, should_fail, result: TestResult::Passed }
    }

    /// Run every unit in order against `tool`, short-circuiting on the
    /// first non-passing outcome, and store the reconciled result. Returns
    /// how many units were evaluated.
    pub fn run<T: Tool>(&mut self, tool: &mut T) -> (evaluated: usize)
        ensures
            final(self)@ == run_case_model(*old(tool), old(self)@),
            final(self).path == old(self).path,
            final(self).units == old(self).units,
            final(self).should_fail == old(self).should_fail,
            final(self)@.result == run_result(*old(tool), old(self)@),
            evaluated as int == evaluated_count(outcomes_of(*old(tool), old(self)@.units)),
            forall|u: UnitModel| #[trigger]
                final(tool).outcome_of(u) == old(tool).outcome_of(u),
            evaluated > 0 ==> final(self).code@ == old(self)@.units[evaluated - 1].content,
            evaluated == 0 ==> final(self).code == old(self).code,
    {
        let ghost t0 = *tool;
        let ghost units0 = old(self)@.units;
        let ghost outs = outcomes_of(t0, units0);
        proof {
            assert(outs.len() == units0.len());
        }
        let n = self.units.len();
        let mut i: usize = 0;
        let mut failed = false;
        let mut raw = TestResult::Passed;
        while i < n && !failed
            invariant
                i <= n,
                n == self.units.len(),
                self.path == old(self).path,
                self.units == old(self).units,
                self.should_fail == old(self).should_fail,
                units0 == old(self)@.units,
                t0 == *old(tool),
                outs == outcomes_of(t0, units0),
                outs.len() == units0.len(),
                forall|u: UnitModel| #[trigger] tool.outcome_of(u) == t0.outcome_of(u),
                !failed ==> forall|j: int| 0 <= j < i ==> outs[j] is Passed,
                !failed ==> raw@ == ResultModel::Passed,
                failed ==> 1 <= i && !(outs[i - 1] is Passed) && raw@ == outs[i - 1],
                failed ==> forall|j: int| 0 <= j < i - 1 ==> outs[j] is Passed,
                i > 0 ==> self.code@ == units0[i - 1].content,
                i == 0 ==> self.code == old(self).code,
            decreases n - i,
        {
            let unit_content = self.units[i].content.clone();
            self.code = unit_content;
            let r = tool.execute(&self.units[i]);
            proof {
                assert(self.units.deep_view()[i as int] == self.units[i as int]@);
                assert(r@ == outs[i as int]);
            }
            if !r.is_passed() {
                raw = r;
                failed = true;
            }
            i = i + 1;
        }
        proof {
            if failed {
                lemma_short_circuit(outs, i - 1);
            } else {
                assert(i == n);
                lemma_raw_result_passed_iff(outs);
                lemma_raw_result_skip(outs, outs.len() as int);
            }
        }
        self.result = reconcile(self.should_fail, raw);
        proof {
            assert(self@ =~= run_case_model(t0, old(self)@));
        }
        i
    }
}

/// Law: a case none of whose units produces a diagnostic, and that is not
/// expected to fail, runs to `Passed`.
pub proof fn lemma_expected_pass_passes(outcomes: Seq<ResultModel>)
    requires
        forall|j: int| 0 <= j < outcomes.len() ==> outcomes[j] is Passed,
    ensures
        reconciled(false, raw_result(outcomes)) == ResultModel::Passed,
{
    lemma_raw_result_passed_iff(outcomes);
}

/// Law: a case expected to fail whose underlying run fails in any way runs
/// to `CorrectError` — never to `Mismatch` or any other failure variant.
pub proof fn lemma_expected_failure_is_correct_error(outcomes: Seq<ResultModel>, j: int)
    requires
        0 <= j < outcomes.len(),
        !(outcomes[j] is Passed),
    ensures
        reconciled(true, raw_result(outcomes)) == ResultModel::CorrectError,
{
    lemma_raw_result_passed_iff(outcomes);
}

} // verus!
