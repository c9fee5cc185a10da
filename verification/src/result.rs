//! The closed set of outcomes a single case execution can produce, their
//! total order for stable aggregation, and expectation reconciliation.

use vstd::prelude::*;

verus! {

/// Mathematical model of a [`TestResult`]: the same variants, with every
/// string replaced by its sequence-of-characters view.
pub enum ResultModel {
    Passed,
    CorrectError,
    Mismatch { expected: bool, actual_diagnostics: Seq<Seq<char>> },
    ParseError { diagnostics: Seq<Seq<char>> },
    RuntimeError { message: Seq<char> },
    IncorrectlyPassed,
}

/// Outcome of executing one case (or one unit of a case).
///
/// `CorrectError` is an expected failure that correctly failed;
/// `IncorrectlyPassed` is an expected failure that unexpectedly succeeded.
pub enum TestResult {
    Passed,
    CorrectError,
    Mismatch { expected: bool, actual_diagnostics: Vec<String> },
    ParseError { diagnostics: Vec<String> },
    RuntimeError { message: String },
    IncorrectlyPassed,
}

impl View for TestResult {
    type V = ResultModel;

    open spec fn view(&self) -> ResultModel {
        match self {
            TestResult::Passed => ResultModel::Passed,
            TestResult::CorrectError => ResultModel::CorrectError,
            TestResult::Mismatch { expected, actual_diagnostics } => ResultModel::Mismatch {
                expected: *expected,
                actual_diagnostics: actual_diagnostics.deep_view(),
            },
            TestResult::ParseError { diagnostics } => ResultModel::ParseError {
                diagnostics: diagnostics.deep_view(),
            },
            TestResult::RuntimeError { message } => ResultModel::RuntimeError {
                message: message.view(),
            },
            TestResult::IncorrectlyPassed => ResultModel::IncorrectlyPassed,
        }
    }
}

/// Position of a variant in the total order used for stable aggregation:
/// `Passed < CorrectError < Mismatch < ParseError < RuntimeError < IncorrectlyPassed`.
pub open spec fn rank(r: ResultModel) -> int {
    match r {
        ResultModel::Passed => 0,
        ResultModel::CorrectError => 1,
        ResultModel::Mismatch { .. } => 2,
        ResultModel::ParseError { .. } => 3,
        ResultModel::RuntimeError { .. } => 4,
        ResultModel::IncorrectlyPassed => 5,
    }
}

/// A result counts toward the pass rate when the case behaved as declared:
/// it passed outright, or it was expected to fail and did fail.
pub open spec fn is_passing(r: ResultModel) -> bool {
    r is Passed || r is CorrectError
}

/// Expectation reconciliation as a pure function: an expected failure that
/// failed becomes `CorrectError`, an expected failure that passed becomes
/// `IncorrectlyPassed`, and without the expectation the raw outcome passes
/// through unchanged.
pub open spec fn reconciled(should_fail: bool, raw: ResultModel) -> ResultModel {
    if !should_fail {
        raw
    } else if raw is Passed {
        ResultModel::IncorrectlyPassed
    } else {
        ResultModel::CorrectError
    }
}

impl TestResult {
    /// Variant rank in the aggregation order.
    pub fn rank_of(&self) -> (n: u8)
        ensures
            n as int == rank(self@),
    {
        match self {
            TestResult::Passed => 0,
            TestResult::CorrectError => 1,
            TestResult::Mismatch { .. } => 2,
            TestResult::ParseError { .. } => 3,
            TestResult::RuntimeError { .. } => 4,
            TestResult::IncorrectlyPassed => 5,
        }
    }

    /// Whether this is the `Passed` variant.
    pub fn is_passed(&self) -> (b: bool)
        ensures
            b == (self@ is Passed),
    {
        matches!(self, TestResult::Passed)
    }

    /// Whether this result counts toward the pass rate.
    pub fn is_passing(&self) -> (b: bool)
        ensures
            b == is_passing(self@),
    {
        matches!(self, TestResult::Passed | TestResult::CorrectError)
    }
}

/// Apply expectation reconciliation to a computed raw outcome.
pub fn reconcile(should_fail: bool, raw: TestResult) -> (r: TestResult)
    ensures
        r@ == reconciled(should_fail, raw@),
{
    if !should_fail {
        raw
    } else if raw.is_passed() {
        TestResult::IncorrectlyPassed
    } else {
        TestResult::CorrectError
    }
}

/// Law: reconciliation is pure and total. An expected failure that passed is
/// remapped to `IncorrectlyPassed`; an expected failure that failed in any
/// way (for instance with a parse error) is remapped to `CorrectError`; and
/// when no failure was expected the raw outcome is returned unchanged.
pub proof fn lemma_reconcile_pure(raw: ResultModel, diags: Seq<Seq<char>>)
    ensures
        reconciled(true, ResultModel::Passed) == ResultModel::IncorrectlyPassed,
        reconciled(true, ResultModel::ParseError { diagnostics: diags })
            == ResultModel::CorrectError,
        reconciled(false, raw) == raw,
{
}

} // verus!
