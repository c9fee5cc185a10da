//! Tool adapters: one strategy per pipeline stage of the toolchain under
//! test. Each adapter's outcome is a pure function of the unit, stated
//! over named results of the toolchain's entry points; the calls
//! themselves stand behind trusted wrappers.

use vstd::prelude::*;

use crate::case::{TestUnit, Tool, UnitModel};
use crate::result::{ResultModel, TestResult};
use vstd::string::StrSliceExecFns;

verus! {

/// The diagnostics the parser reports for one source text.
pub uninterp spec fn parse_diags(code: Seq<char>, module: bool, typescript: bool) -> Seq<
    Seq<char>,
>;

/// The diagnostics semantic analysis reports for one source text.
pub uninterp spec fn semantic_diags(code: Seq<char>, module: bool, typescript: bool) -> Seq<
    Seq<char>,
>;

/// The compact code the code generator prints for one source text.
pub uninterp spec fn printed(code: Seq<char>, module: bool, typescript: bool) -> Seq<char>;

/// The formatted code the pretty printer prints for one source text.
pub uninterp spec fn pretty_printed(code: Seq<char>, module: bool, typescript: bool) -> Seq<
    char,
>;

/// The diagnostics the transformer reports for one source text.
pub uninterp spec fn transform_diags(code: Seq<char>, module: bool, typescript: bool) -> Seq<
    Seq<char>,
>;

/// The diagnostics the TypeScript transpile pass reports for one source.
pub uninterp spec fn transpile_diags(code: Seq<char>, module: bool) -> Seq<Seq<char>>;

/// The minified code the minifier emits for one source text.
pub uninterp spec fn minified(code: Seq<char>, module: bool, typescript: bool) -> Seq<char>;

/// Relies on `oxc::parser::Parser::parse`: parsing is a pure function of
/// the source text and source type; the returned diagnostics are empty
/// exactly when the source parsed cleanly.
#[verifier::external_body]
fn oxc_parse(code: &str, module: bool, typescript: bool) -> (r: Vec<String>)
    ensures
        r.deep_view() == parse_diags(code@, module, typescript),
{
    let allocator = oxc::allocator::Allocator::default();
    let st = if typescript { oxc::span::SourceType::ts().with_module(module) } else if module { oxc::span::SourceType::mjs() } else { oxc::span::SourceType::cjs() };
    let ret = oxc::parser::Parser::new(&allocator, code, st).parse();
    ret.diagnostics.into_vec().into_iter().map(|d| d.to_string()).collect()
}

/// Relies on `oxc::semantic::SemanticBuilder::build` with syntax-error
/// checking enabled, on the parse of the same source: analysis is a pure
/// function of the source text and source type.
#[verifier::external_body]
fn oxc_semantic(code: &str, module: bool, typescript: bool) -> (r: Vec<String>)
    ensures
        r.deep_view() == semantic_diags(code@, module, typescript),
{
    let allocator = oxc::allocator::Allocator::default();
    let st = if typescript { oxc::span::SourceType::ts().with_module(module) } else if module { oxc::span::SourceType::mjs() } else { oxc::span::SourceType::cjs() };
    let ret = oxc::parser::Parser::new(&allocator, code, st).parse();
    let sem = oxc::semantic::SemanticBuilder::new().with_check_syntax_error(true).build(
        &ret.program,
    );
    sem.diagnostics.into_vec().into_iter().map(|d| d.to_string()).collect()
}

/// Relies on `oxc::codegen::Codegen::build` with whitespace removal: the
/// printed code is a pure function of the source text and source type.
#[verifier::external_body]
fn oxc_print(code: &str, module: bool, typescript: bool) -> (r: String)
    ensures
        r@ == printed(code@, module, typescript),
{
    let allocator = oxc::allocator::Allocator::default();
    let st = if typescript { oxc::span::SourceType::ts().with_module(module) } else if module { oxc::span::SourceType::mjs() } else { oxc::span::SourceType::cjs() };
    let ret = oxc::parser::Parser::new(&allocator, code, st).parse();
    let options = oxc::codegen::CodegenOptions { minify: true, ..Default::default() };
    oxc::codegen::Codegen::new().with_options(options).build(&ret.program).code
}

/// Relies on `oxc::codegen::Codegen::build` with default formatting: the
/// pretty-printed code is a pure function of the source text and source
/// type.
#[verifier::external_body]
fn oxc_pretty_print(code: &str, module: bool, typescript: bool) -> (r: String)
    ensures
        r@ == pretty_printed(code@, module, typescript),
{
    let allocator = oxc::allocator::Allocator::default();
    let st = if typescript { oxc::span::SourceType::ts().with_module(module) } else if module { oxc::span::SourceType::mjs() } else { oxc::span::SourceType::cjs() };
    let ret = oxc::parser::Parser::new(&allocator, code, st).parse();
    oxc::codegen::Codegen::new().with_options(Default::default()).build(&ret.program).code
}

/// Relies on `oxc::transformer::Transformer::build_with_scoping` with
/// every transform enabled, on the parse and scoping of the same source:
/// the diagnostics are a pure function of the source text and source type.
#[verifier::external_body]
fn oxc_transform(code: &str, module: bool, typescript: bool) -> (r: Vec<String>)
    ensures
        r.deep_view() == transform_diags(code@, module, typescript),
{
    let allocator = oxc::allocator::Allocator::default();
    let st = if typescript { oxc::span::SourceType::ts().with_module(module) } else if module { oxc::span::SourceType::mjs() } else { oxc::span::SourceType::cjs() };
    let mut ret = oxc::parser::Parser::new(&allocator, code, st).parse();
    let scoping = oxc::semantic::SemanticBuilder::new().build(&ret.program).semantic
        .into_scoping();
    let options = oxc::transformer::TransformOptions::enable_all();
    let path = std::path::Path::new("fixture.tsx");
    let tret = oxc::transformer::Transformer::new(&allocator, path, &options)
        .build_with_scoping(scoping, &mut ret.program);
    tret.diagnostics.into_vec().into_iter().map(|d| d.to_string()).collect()
}

/// Relies on `oxc::transformer::Transformer::build_with_scoping` with the
/// default (TypeScript-stripping) options, on a TypeScript parse of the
/// source: the diagnostics are a pure function of the source text.
#[verifier::external_body]
fn oxc_transpile(code: &str, module: bool) -> (r: Vec<String>)
    ensures
        r.deep_view() == transpile_diags(code@, module),
{
    let allocator = oxc::allocator::Allocator::default();
    let st = oxc::span::SourceType::ts().with_module(module);
    let mut ret = oxc::parser::Parser::new(&allocator, code, st).parse();
    let scoping = oxc::semantic::SemanticBuilder::new().build(&ret.program).semantic
        .into_scoping();
    let options = oxc::transformer::TransformOptions::default();
    let tret = oxc::transformer::Transformer::new(
        &allocator,
        std::path::Path::new("fixture.ts"),
        &options,
    ).build_with_scoping(scoping, &mut ret.program);
    tret.diagnostics.into_vec().into_iter().map(|d| d.to_string()).collect()
}

/// Relies on `oxc::minifier::Minifier::minify` (compression without
/// mangling) followed by a compact print: the minified code is a pure
/// function of the source text and source type.
#[verifier::external_body]
fn oxc_minify(code: &str, module: bool, typescript: bool) -> (r: String)
    ensures
        r@ == minified(code@, module, typescript),
{
    let allocator = oxc::allocator::Allocator::default();
    let st = if typescript { oxc::span::SourceType::ts().with_module(module) } else if module { oxc::span::SourceType::mjs() } else { oxc::span::SourceType::cjs() };
    let mut ret = oxc::parser::Parser::new(&allocator, code, st).parse();
    let options = oxc::minifier::MinifierOptions {
        mangle: None,
        compress: Some(Default::default()),
    };
    let _ = oxc::minifier::Minifier::new(options).minify(&allocator, &mut ret.program);
    let print_options = oxc::codegen::CodegenOptions { minify: true, ..Default::default() };
    oxc::codegen::Codegen::new().with_options(print_options).build(&ret.program).code
}

/// Parse-only stage: a unit passes when the parser reports nothing.
#[derive(Clone, Copy)]
pub struct ParserTool {}

impl Tool for ParserTool {
    open spec fn outcome_of(&self, u: UnitModel) -> ResultModel {
        if parse_diags(u.content, u.module, u.typescript).len() == 0 {
            ResultModel::Passed
        } else {
            ResultModel::ParseError {
                diagnostics: parse_diags(u.content, u.module, u.typescript),
            }
        }
    }

    fn execute(&mut self, unit: &TestUnit) -> (r: TestResult) {
        let d = oxc_parse(unit.content.as_str(), unit.module, unit.typescript);
        if d.is_empty() {
            TestResult::Passed
        } else {
            TestResult::ParseError { diagnostics: d }
        }
    }
}

/// Semantic-analysis stage: a unit must parse and then analyze cleanly.
#[derive(Clone, Copy)]
pub struct SemanticTool {}

impl Tool for SemanticTool {
    open spec fn outcome_of(&self, u: UnitModel) -> ResultModel {
        if parse_diags(u.content, u.module, u.typescript).len() != 0 {
            ResultModel::ParseError {
                diagnostics: parse_diags(u.content, u.module, u.typescript),
            }
        } else if semantic_diags(u.content, u.module, u.typescript).len() == 0 {
            ResultModel::Passed
        } else {
            ResultModel::Mismatch {
                expected: false,
                actual_diagnostics: semantic_diags(u.content, u.module, u.typescript),
            }
        }
    }

    fn execute(&mut self, unit: &TestUnit) -> (r: TestResult) {
        let pd = oxc_parse(unit.content.as_str(), unit.module, unit.typescript);
        if !pd.is_empty() {
            return TestResult::ParseError { diagnostics: pd };
        }
        let sd = oxc_semantic(unit.content.as_str(), unit.module, unit.typescript);
        if sd.is_empty() {
            TestResult::Passed
        } else {
            TestResult::Mismatch { expected: false, actual_diagnostics: sd }
        }
    }
}

/// Code-generation stage: a unit must parse, and the printed code must
/// round-trip — printing the printed code must reproduce it.
#[derive(Clone, Copy)]
pub struct CodegenTool {}

impl Tool for CodegenTool {
    open spec fn outcome_of(&self, u: UnitModel) -> ResultModel {
        if parse_diags(u.content, u.module, u.typescript).len() != 0 {
            ResultModel::ParseError {
                diagnostics: parse_diags(u.content, u.module, u.typescript),
            }
        } else {
            let once = printed(u.content, u.module, u.typescript);
            let twice = printed(once, u.module, u.typescript);
            if once == twice {
                ResultModel::Passed
            } else {
                ResultModel::Mismatch { expected: true, actual_diagnostics: seq![once, twice] }
            }
        }
    }

    fn execute(&mut self, unit: &TestUnit) -> (r: TestResult) {
        let pd = oxc_parse(unit.content.as_str(), unit.module, unit.typescript);
        if !pd.is_empty() {
            return TestResult::ParseError { diagnostics: pd };
        }
        let once = oxc_print(unit.content.as_str(), unit.module, unit.typescript);
        let twice = oxc_print(once.as_str(), unit.module, unit.typescript);
        if once.eq(&twice) {
            TestResult::Passed
        } else {
            let ghost om = once@;
            let ghost tm = twice@;
            let out = TestResult::Mismatch {
                expected: true,
                actual_diagnostics: vec![once, twice],
            };
            proof {
                assert(out@->Mismatch_actual_diagnostics =~= seq![om, tm]);
            }
            out
        }
    }
}

/// Pretty-printing stage: a unit must parse, and formatting must be
/// idempotent — formatting the formatted code must reproduce it.
#[derive(Clone, Copy)]
pub struct PrettierTool {}

impl Tool for PrettierTool {
    open spec fn outcome_of(&self, u: UnitModel) -> ResultModel {
        if parse_diags(u.content, u.module, u.typescript).len() != 0 {
            ResultModel::ParseError {
                diagnostics: parse_diags(u.content, u.module, u.typescript),
            }
        } else {
            let once = pretty_printed(u.content, u.module, u.typescript);
            let twice = pretty_printed(once, u.module, u.typescript);
            if once == twice {
                ResultModel::Passed
            } else {
                ResultModel::Mismatch { expected: true, actual_diagnostics: seq![once, twice] }
            }
        }
    }

    fn execute(&mut self, unit: &TestUnit) -> (r: TestResult) {
        let pd = oxc_parse(unit.content.as_str(), unit.module, unit.typescript);
        if !pd.is_empty() {
            return TestResult::ParseError { diagnostics: pd };
        }
        let once = oxc_pretty_print(unit.content.as_str(), unit.module, unit.typescript);
        let twice = oxc_pretty_print(once.as_str(), unit.module, unit.typescript);
        if once.eq(&twice) {
            TestResult::Passed
        } else {
            let ghost om = once@;
            let ghost tm = twice@;
            let out = TestResult::Mismatch {
                expected: true,
                actual_diagnostics: vec![once, twice],
            };
            proof {
                assert(out@->Mismatch_actual_diagnostics =~= seq![om, tm]);
            }
            out
        }
    }
}

/// Transformation stage: a unit must parse and then transform cleanly
/// with every transform enabled.
#[derive(Clone, Copy)]
pub struct TransformerTool {}

impl Tool for TransformerTool {
    open spec fn outcome_of(&self, u: UnitModel) -> ResultModel {
        if parse_diags(u.content, u.module, u.typescript).len() != 0 {
            ResultModel::ParseError {
                diagnostics: parse_diags(u.content, u.module, u.typescript),
            }
        } else if transform_diags(u.content, u.module, u.typescript).len() == 0 {
            ResultModel::Passed
        } else {
            ResultModel::Mismatch {
                expected: false,
                actual_diagnostics: transform_diags(u.content, u.module, u.typescript),
            }
        }
    }

    fn execute(&mut self, unit: &TestUnit) -> (r: TestResult) {
        let pd = oxc_parse(unit.content.as_str(), unit.module, unit.typescript);
        if !pd.is_empty() {
            return TestResult::ParseError { diagnostics: pd };
        }
        let td = oxc_transform(unit.content.as_str(), unit.module, unit.typescript);
        if td.is_empty() {
            TestResult::Passed
        } else {
            TestResult::Mismatch { expected: false, actual_diagnostics: td }
        }
    }
}

/// Transpile stage: a unit is read as TypeScript, must parse, and the
/// type-stripping transform must report nothing.
#[derive(Clone, Copy)]
pub struct TranspileTool {}

impl Tool for TranspileTool {
    open spec fn outcome_of(&self, u: UnitModel) -> ResultModel {
        if parse_diags(u.content, u.module, true).len() != 0 {
            ResultModel::ParseError { diagnostics: parse_diags(u.content, u.module, true) }
        } else if transpile_diags(u.content, u.module).len() == 0 {
            ResultModel::Passed
        } else {
            ResultModel::Mismatch {
                expected: false,
                actual_diagnostics: transpile_diags(u.content, u.module),
            }
        }
    }

    fn execute(&mut self, unit: &TestUnit) -> (r: TestResult) {
        let pd = oxc_parse(unit.content.as_str(), unit.module, true);
        if !pd.is_empty() {
            return TestResult::ParseError { diagnostics: pd };
        }
        let td = oxc_transpile(unit.content.as_str(), unit.module);
        if td.is_empty() {
            TestResult::Passed
        } else {
            TestResult::Mismatch { expected: false, actual_diagnostics: td }
        }
    }
}

/// Minification stage: a unit must parse, and the minified output must
/// itself parse cleanly.
#[derive(Clone, Copy)]
pub struct MinifierTool {}

impl Tool for MinifierTool {
    open spec fn outcome_of(&self, u: UnitModel) -> ResultModel {
        if parse_diags(u.content, u.module, u.typescript).len() != 0 {
            ResultModel::ParseError {
                diagnostics: parse_diags(u.content, u.module, u.typescript),
            }
        } else {
            let small = minified(u.content, u.module, u.typescript);
            if parse_diags(small, u.module, u.typescript).len() == 0 {
                ResultModel::Passed
            } else {
                ResultModel::ParseError {
                    diagnostics: parse_diags(small, u.module, u.typescript),
                }
            }
        }
    }

    fn execute(&mut self, unit: &TestUnit) -> (r: TestResult) {
        let pd = oxc_parse(unit.content.as_str(), unit.module, unit.typescript);
        if !pd.is_empty() {
            return TestResult::ParseError { diagnostics: pd };
        }
        let small = oxc_minify(unit.content.as_str(), unit.module, unit.typescript);
        let pd2 = oxc_parse(small.as_str(), unit.module, unit.typescript);
        if pd2.is_empty() {
            TestResult::Passed
        } else {
            TestResult::ParseError { diagnostics: pd2 }
        }
    }
}

/// A deterministic in-library stage used by the harness's own tests: a
/// unit fails with a parse error exactly when its content starts with
/// `!`, and the tool counts how many units it was asked to execute.
pub struct CountingTool {
    pub calls: u64,
}

/// The outcome the counting tool assigns to a content sequence.
pub open spec fn scripted_outcome(content: Seq<char>) -> ResultModel {
    if content.len() > 0 && content[0] == '!' {
        ResultModel::ParseError { diagnostics: seq!["scripted failure"@] }
    } else {
        ResultModel::Passed
    }
}

impl Tool for CountingTool {
    open spec fn outcome_of(&self, u: UnitModel) -> ResultModel {
        scripted_outcome(u.content)
    }

    fn execute(&mut self, unit: &TestUnit) -> (r: TestResult) {
        if self.calls < u64::MAX {
            self.calls = self.calls + 1;
        }
        let content = unit.content.as_str();
        let n = content.unicode_len();
        if n > 0 {
            let first = content.get_char(0);
            if first == '!' {
                let d = vec!["scripted failure".to_owned()];
                let out = TestResult::ParseError { diagnostics: d };
                proof {
                    assert(out@->ParseError_diagnostics =~= seq!["scripted failure"@]);
                }
                return out;
            }
        }
        TestResult::Passed
    }
}

} // verus!
