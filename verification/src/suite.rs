//! Suites: a named, ordered collection of cases sourced from one corpus.
//! Discovery builds one case per fixture (less the skip list), stores them
//! sorted by path so that reports are deterministic, and a run executes
//! every case either sequentially or across a worker pool.

use vstd::prelude::*;

use rayon::iter::IntoParallelRefMutIterator;
use rayon::iter::ParallelIterator;

use crate::case::{
    derive_units, derived_units, outcomes_of, run_case_model, Case, CaseModel, Tool, UnitModel,
};
use crate::result::ResultModel;
use crate::text::{contains_sub, lemma_lex_le_total, lemma_lex_le_trans, lex_le, str_contains, str_le};

verus! {

/// Mathematical model of a [`Fixture`].
#[verifier::ext_equal]
pub struct FixtureModel {
    pub path: Seq<char>,
    pub code: Seq<char>,
    pub should_fail: bool,
    pub module: bool,
    pub typescript: bool,
    pub both_modes: bool,
}

/// One discovered source file of a corpus, together with the corpus
/// metadata the harness consumes: the declared expectation and the dialect
/// flags that decide how the file expands into units.
pub struct Fixture {
    pub path: String,
    pub code: String,
    pub should_fail: bool,
    pub module: bool,
    pub typescript: bool,
    pub both_modes: bool,
}

impl View for Fixture {
    type V = FixtureModel;

    open spec fn view(&self) -> FixtureModel {
        FixtureModel {
            path: self.path@,
            code: self.code@,
            should_fail: self.should_fail,
            module: self.module,
            typescript: self.typescript,
            both_modes: self.both_modes,
        }
    }
}

impl DeepView for Fixture {
    type V = FixtureModel;

    open spec fn deep_view(&self) -> FixtureModel {
        self.view()
    }
}

/// The case a fixture expands to, before any run.
pub open spec fn case_of_fixture(f: FixtureModel) -> CaseModel {
    CaseModel {
        path: f.path,
        code: f.code,
        units: derived_units(f.code, f.module, f.typescript, f.both_modes),
        should_fail: f.should_fail,
        result: ResultModel::Passed,
    }
}

/// A path stands in the given list of paths.
pub open spec fn path_listed(paths: Seq<Seq<char>>, path: Seq<char>) -> bool {
    exists|k: int| 0 <= k < paths.len() && paths[k] == path
}

/// A path passes the configured filter: no filter is set, or the path
/// contains the filter substring.
pub open spec fn path_matches(path: Seq<char>, filt: Option<Seq<char>>) -> bool {
    match filt {
        Option::None => true,
        Option::Some(f) => contains_sub(path, f),
    }
}

/// The cases a run works on, in discovery order: one per fixture whose
/// path is neither on the skip list nor cut out by the filter. A filtered
/// run treats non-matching fixtures as absent: they are never stored,
/// executed or aggregated.
pub open spec fn discovered_cases(
    fixtures: Seq<FixtureModel>,
    skipped: Seq<Seq<char>>,
    filt: Option<Seq<char>>,
) -> Seq<CaseModel>
    decreases fixtures.len(),
{
    if fixtures.len() == 0 {
        Seq::empty()
    } else {
        let rest = discovered_cases(fixtures.drop_last(), skipped, filt);
        if !path_listed(skipped, fixtures.last().path) && path_matches(
            fixtures.last().path,
            filt,
        ) {
            rest.push(case_of_fixture(fixtures.last()))
        } else {
            rest
        }
    }
}

/// Filter law: every discovered case's path passes the filter and misses
/// the skip list, no filtered run can hold more cases than the corpus
/// has, and with no filter and no skip list every fixture is kept.
pub proof fn lemma_discovered_matches(
    fixtures: Seq<FixtureModel>,
    skipped: Seq<Seq<char>>,
    filt: Option<Seq<char>>,
)
    ensures
        discovered_cases(fixtures, skipped, filt).len() <= fixtures.len(),
        forall|i: int|
            0 <= i < discovered_cases(fixtures, skipped, filt).len() ==> path_matches(
                #[trigger] discovered_cases(fixtures, skipped, filt)[i].path,
                filt,
            ) && !path_listed(skipped, discovered_cases(fixtures, skipped, filt)[i].path),
        (filt is None && skipped.len() == 0) ==> discovered_cases(fixtures, skipped, filt).len()
            == fixtures.len(),
    decreases fixtures.len(),
{
    if fixtures.len() > 0 {
        lemma_discovered_matches(fixtures.drop_last(), skipped, filt);
    }
}

/// Case order: by path, lexicographically.
pub open spec fn case_le(a: CaseModel, b: CaseModel) -> bool {
    lex_le(a.path, b.path)
}

/// The case list is sorted by path.
pub open spec fn sorted_by_path(cs: Seq<CaseModel>) -> bool {
    forall|i: int, j: int| 0 <= i < j < cs.len() ==> case_le(#[trigger] cs[i], #[trigger] cs[j])
}

/// Insert a case into a sorted case list, before the first entry it
/// precedes or ties with.
pub open spec fn insert_sorted(c: CaseModel, cs: Seq<CaseModel>) -> Seq<CaseModel>
    decreases cs.len(),
{
    if cs.len() == 0 {
        seq![c]
    } else if case_le(c, cs[0]) {
        seq![c] + cs
    } else {
        seq![cs[0]] + insert_sorted(c, cs.drop_first())
    }
}

/// Sort a case list by path: every element inserted in turn into the
/// sorted list of those before it.
pub open spec fn sort_cases(cs: Seq<CaseModel>) -> Seq<CaseModel>
    decreases cs.len(),
{
    if cs.len() == 0 {
        Seq::empty()
    } else {
        insert_sorted(cs.last(), sort_cases(cs.drop_last()))
    }
}

/// Inserting into a sorted list keeps it sorted; every entry of the
/// result is the inserted case or one of the old entries.
pub proof fn lemma_insert_sorted_sorted(c: CaseModel, cs: Seq<CaseModel>)
    requires
        sorted_by_path(cs),
    ensures
        sorted_by_path(insert_sorted(c, cs)),
        insert_sorted(c, cs).len() == cs.len() + 1,
        forall|m: int|
            0 <= m < insert_sorted(c, cs).len() ==> (#[trigger] insert_sorted(c, cs)[m] == c
                || cs.contains(insert_sorted(c, cs)[m])),
    decreases cs.len(),
{
    let out = insert_sorted(c, cs);
    if cs.len() == 0 {
        assert(out =~= seq![c]);
        assert(out[0] == c);
    } else if case_le(c, cs[0]) {
        assert(forall|k: int| 0 <= k < cs.len() ==> out[k + 1] == cs[k]);
        assert forall|i: int, j: int| 0 <= i < j < out.len() implies case_le(out[i], out[j]) by {
            if i == 0 && j > 1 {
                assert(case_le(cs[0], cs[j - 1]));
                lemma_lex_le_trans(c.path, cs[0].path, cs[j - 1].path);
            }
        }
        assert forall|m: int| 0 <= m < out.len() implies (#[trigger] out[m] == c || cs.contains(
            out[m],
        )) by {
            if m > 0 {
                assert(out[m] == cs[m - 1]);
                assert(cs.contains(cs[m - 1]));
            }
        }
    } else {
        let rest = cs.drop_first();
        assert(forall|k: int| 0 <= k < rest.len() ==> rest[k] == cs[k + 1]);
        assert(forall|i: int, j: int|
            0 <= i < j < rest.len() ==> case_le(#[trigger] rest[i], #[trigger] rest[j]));
        lemma_insert_sorted_sorted(c, rest);
        let sub = insert_sorted(c, rest);
        assert(out =~= seq![cs[0]] + sub);
        assert(forall|k: int| 0 <= k < sub.len() ==> out[k + 1] == sub[k]);
        lemma_lex_le_total(c.path, cs[0].path);
        assert forall|i: int, j: int| 0 <= i < j < out.len() implies case_le(out[i], out[j]) by {
            if i == 0 {
                assert(sub[j - 1] == c || rest.contains(sub[j - 1]));
                if sub[j - 1] == c {
                } else {
                    let k = choose|k: int| 0 <= k < rest.len() && rest[k] == sub[j - 1];
                    assert(case_le(cs[0], cs[k + 1]));
                }
            }
        }
        assert forall|m: int| 0 <= m < out.len() implies (#[trigger] out[m] == c || cs.contains(
            out[m],
        )) by {
            if m == 0 {
                assert(cs.contains(cs[0]));
            } else {
                assert(sub[m - 1] == c || rest.contains(sub[m - 1]));
                if sub[m - 1] != c {
                    let k = choose|k: int| 0 <= k < rest.len() && rest[k] == sub[m - 1];
                    assert(cs.contains(cs[k + 1]));
                }
            }
        }
    }
}

/// The sorted case list is sorted.
pub proof fn lemma_sort_cases_sorted(cs: Seq<CaseModel>)
    ensures
        sorted_by_path(sort_cases(cs)),
    decreases cs.len(),
{
    if cs.len() > 0 {
        lemma_sort_cases_sorted(cs.drop_last());
        lemma_insert_sorted_sorted(cs.last(), sort_cases(cs.drop_last()));
    }
}

/// Where the exec insertion lands: inserting before position `idx` is
/// exactly [`insert_sorted`] when everything before `idx` precedes `c`
/// strictly and `c` precedes or ties with the entry at `idx`.
proof fn lemma_insert_sorted_at(c: CaseModel, cs: Seq<CaseModel>, idx: int)
    requires
        0 <= idx <= cs.len(),
        forall|j: int| 0 <= j < idx ==> !case_le(c, #[trigger] cs[j]),
        idx < cs.len() ==> case_le(c, cs[idx]),
    ensures
        insert_sorted(c, cs) == cs.take(idx) + seq![c] + cs.skip(idx),
    decreases cs.len(),
{
    if cs.len() == 0 {
        assert(insert_sorted(c, cs) =~= cs.take(idx) + seq![c] + cs.skip(idx));
    } else if case_le(c, cs[0]) {
        assert(idx == 0);
        assert(insert_sorted(c, cs) =~= cs.take(0) + seq![c] + cs.skip(0));
    } else {
        let rest = cs.drop_first();
        assert(idx >= 1);
        assert(forall|k: int| 0 <= k < rest.len() ==> rest[k] == cs[k + 1]);
        lemma_insert_sorted_at(c, rest, idx - 1);
        assert(seq![cs[0]] + (rest.take(idx - 1) + seq![c] + rest.skip(idx - 1)) =~= cs.take(idx)
            + seq![c] + cs.skip(idx));
    }
}

/// Mathematical model of a [`Suite`].
#[verifier::ext_equal]
pub struct SuiteModel {
    pub name: Seq<char>,
    pub cases: Seq<CaseModel>,
    pub skipped: Seq<Seq<char>>,
}

/// A named, ordered collection of cases sourced from one corpus, plus the
/// externally maintained list of known-bad fixtures excluded from scoring.
pub struct Suite {
    pub name: String,
    pub test_cases: Vec<Case>,
    pub skipped_paths: Vec<String>,
}

impl View for Suite {
    type V = SuiteModel;

    open spec fn view(&self) -> SuiteModel {
        SuiteModel {
            name: self.name@,
            cases: self.test_cases.deep_view(),
            skipped: self.skipped_paths.deep_view(),
        }
    }
}

/// The case list a discovery pass leaves behind: one case per non-skipped
/// fixture, sorted by path.
pub open spec fn read_cases_model(
    fixtures: Seq<FixtureModel>,
    skipped: Seq<Seq<char>>,
    filt: Option<Seq<char>>,
) -> Seq<CaseModel> {
    sort_cases(discovered_cases(fixtures, skipped, filt))
}

/// The whole case list after a run: every case run independently.
pub open spec fn run_cases_model<T: Tool>(tool: T, cs: Seq<CaseModel>) -> Seq<CaseModel> {
    cs.map_values(|c: CaseModel| run_case_model(tool, c))
}

/// A run never reorders the stored case list, so a path-sorted suite stays
/// path-sorted whatever order its cases complete in.
pub proof fn lemma_run_preserves_order<T: Tool>(tool: T, cs: Seq<CaseModel>)
    requires
        sorted_by_path(cs),
    ensures
        sorted_by_path(run_cases_model(tool, cs)),
{
    let out = run_cases_model(tool, cs);
    assert forall|i: int, j: int| 0 <= i < j < out.len() implies case_le(
        #[trigger] out[i],
        #[trigger] out[j],
    ) by {
        assert(out[i].path == cs[i].path);
        assert(out[j].path == cs[j].path);
        assert(case_le(cs[i], cs[j]));
    }
}

/// Running a suite a second time, with no change to the tool under test,
/// changes nothing: outcomes are a pure function of unit and tool, so the
/// rendered report of the second run is identical to the first.
pub proof fn lemma_run_idempotent<T: Tool>(tool: T, cs: Seq<CaseModel>)
    ensures
        run_cases_model(tool, run_cases_model(tool, cs)) == run_cases_model(tool, cs),
{
    let once = run_cases_model(tool, cs);
    assert forall|i: int| 0 <= i < cs.len() implies #[trigger] run_case_model(tool, once[i])
        == once[i] by {
        assert(once[i] == run_case_model(tool, cs[i]));
        assert(once[i].units == cs[i].units);
        assert(run_case_model(tool, once[i]) =~= once[i]);
    }
    assert(run_cases_model(tool, once) =~= once);
}

/// Runs every case across rayon's worker pool.
///
/// Relies on rayon's `par_iter_mut().for_each`: the closure is applied to
/// every element of the vector exactly once, elements are processed
/// independently, and each closure call only runs the verified
/// [`Case::run`] on its own case with its own copy of `tool`, so every
/// element ends in the state [`Case::run`]'s contract gives it.
#[verifier::external_body]
fn run_cases_pool<T: Tool + Copy + Send + Sync>(cases: &mut Vec<Case>, tool: &T)
    ensures
        final(cases).deep_view() == run_cases_model(*tool, old(cases).deep_view()),
{
    cases.par_iter_mut().for_each(|c| {
        let mut t = *tool;
        let _ = c.run(&mut t);
    });
}

impl Suite {
    /// An empty suite with the given name and skip list.
    pub fn new(name: String, skipped_paths: Vec<String>) -> (s: Suite)
        ensures
            s@.name == name@,
            s@.cases =~= Seq::<CaseModel>::empty(),
            s@.skipped == skipped_paths.deep_view(),
    {
        let s = Suite { name, test_cases: Vec::new(), skipped_paths };
        proof {
            assert(s@.cases =~= Seq::<CaseModel>::empty());
        }
        s
    }

    /// Whether a path stands on the skip list.
    fn is_skipped(&self, path: &String) -> (b: bool)
        ensures
            b == path_listed(self@.skipped, path@),
    {
        let mut k: usize = 0;
        while k < self.skipped_paths.len()
            invariant
                k <= self.skipped_paths.len(),
                forall|j: int| 0 <= j < k ==> self@.skipped[j] != path@,
            decreases self.skipped_paths.len() - k,
        {
            let entry = &self.skipped_paths[k];
            proof {
                assert(self@.skipped[k as int] == self.skipped_paths@[k as int]@);
            }
            if entry.eq(path) {
                return true;
            }
            k = k + 1;
        }
        false
    }

    /// Discover this corpus's cases for one run: build one case per
    /// fixture that is neither on the skip list nor cut out by the
    /// filter, and store them sorted by path. A non-matching fixture is
    /// treated as absent: never stored, so never executed. Idempotent:
    /// the stored list is replaced, never appended to.
    pub fn read_test_cases(&mut self, fixtures: &Vec<Fixture>, filter: &Option<String>)
        ensures
            final(self).name == old(self).name,
            final(self).skipped_paths == old(self).skipped_paths,
            final(self)@.cases == read_cases_model(
                fixtures.deep_view(),
                old(self)@.skipped,
                filter.deep_view(),
            ),
            sorted_by_path(final(self)@.cases),
    {
        let ghost fs = fixtures.deep_view();
        let ghost skipped = self@.skipped;
        let ghost filt = filter.deep_view();
        let mut built: Vec<Case> = Vec::new();
        let mut i: usize = 0;
        proof {
            assert(fs.take(0) =~= Seq::<FixtureModel>::empty());
            assert(built.deep_view() =~= discovered_cases(fs.take(0), skipped, filt));
        }
        while i < fixtures.len()
            invariant
                i <= fixtures.len(),
                fs == fixtures.deep_view(),
                skipped == self@.skipped,
                self.name == old(self).name,
                self.skipped_paths == old(self).skipped_paths,
                self.test_cases == old(self).test_cases,
                filt == filter.deep_view(),
                built.deep_view() == discovered_cases(fs.take(i as int), skipped, filt),
            decreases fixtures.len() - i,
        {
            let ghost pre = built@;
            let ghost pre_dv = built.deep_view();
            let f = &fixtures[i];
            let matches = match filter {
                Option::Some(sub) => str_contains(f.path.as_str(), sub.as_str()),
                Option::None => true,
            };
            let keep = matches && !self.is_skipped(&f.path);
            if keep {
                let units = derive_units(&f.code, f.module, f.typescript, f.both_modes);
                let c = Case::new(f.path.clone(), f.code.clone(), f.should_fail, units);
                let ghost cm = c@;
                proof {
                    assert(fs[i as int] == f@);
                    assert(cm =~= case_of_fixture(fs[i as int]));
                }
                built.push(c);
                proof {
                    assert forall|j: int| 0 <= j < built@.len() implies built.deep_view()[j]
                        == pre_dv.push(cm)[j] by {
                        if j < pre.len() {
                            assert(built@[j] == pre[j]);
                            assert(pre_dv[j] == pre[j].deep_view());
                        }
                    }
                    assert(built.deep_view() =~= pre_dv.push(case_of_fixture(fs[i as int])));
                }
            }
            proof {
                assert(fs[i as int] == f@);
                assert(matches == path_matches(fs[i as int].path, filt));
                assert(fs.take(i + 1).drop_last() =~= fs.take(i as int));
                assert(fs.take(i + 1).last() == fs[i as int]);
                assert(built.deep_view() =~= discovered_cases(fs.take(i + 1), skipped, filt));
            }
            i = i + 1;
        }
        proof {
            assert(fs.take(fs.len() as int) =~= fs);
        }
        let ghost discovered = discovered_cases(fs, skipped, filt);
        let ghost total = discovered.len();
        let mut sorted: Vec<Case> = Vec::new();
        proof {
            assert(built.deep_view() =~= discovered.skip(0));
            assert(discovered.take(0) =~= Seq::<CaseModel>::empty());
            assert(sorted.deep_view() =~= sort_cases(discovered.take(0)));
        }
        while built.len() > 0
            invariant
                self.name == old(self).name,
                self.skipped_paths == old(self).skipped_paths,
                self.test_cases == old(self).test_cases,
                total == discovered.len(),
                built.len() <= total,
                built.deep_view() == discovered.skip(total - built.len()),
                sorted.deep_view() == sort_cases(discovered.take(total - built.len())),
            decreases built.len(),
        {
            let ghost k = total - built.len();
            let ghost pre = built@;
            let ghost pre_dv = built.deep_view();
            let c = built.remove(0);
            proof {
                assert(pre_dv[0] == pre[0].deep_view());
                assert(c@ == discovered.skip(k)[0]);
                assert(discovered.skip(k)[0] == discovered[k]);
                assert forall|j: int| 0 <= j < built@.len() implies built.deep_view()[j]
                    == discovered.skip(k + 1)[j] by {
                    assert(built@[j] == pre[j + 1]);
                    assert(pre_dv[j + 1] == pre[j + 1].deep_view());
                    assert(pre_dv[j + 1] == discovered.skip(k)[j + 1]);
                }
                assert(built.deep_view() =~= discovered.skip(k + 1));
            }
            let ghost before = sorted.deep_view();
            let mut idx: usize = 0;
            let mut found = false;
            while idx < sorted.len() && !found
                invariant
                    idx <= sorted.len(),
                    before == sorted.deep_view(),
                    c@ == discovered[k],
                    forall|j: int| 0 <= j < idx ==> !case_le(c@, #[trigger] before[j]),
                    found ==> idx < sorted.len() && case_le(c@, before[idx as int]),
                decreases sorted.len() - idx + (if found { 0int } else { 1int }),
            {
                if str_le(c.path.as_str(), sorted[idx].path.as_str()) {
                    found = true;
                } else {
                    proof {
                        lemma_lex_le_total(c@.path, before[idx as int].path);
                    }
                    idx = idx + 1;
                }
            }
            let ghost spre = sorted@;
            sorted.insert(idx, c);
            proof {
                lemma_insert_sorted_at(discovered[k], before, idx as int);
                assert forall|j: int| 0 <= j < sorted@.len() implies sorted.deep_view()[j] == (
                before.take(idx as int) + seq![discovered[k]] + before.skip(idx as int))[j] by {
                    assert(sorted@ == spre.insert(idx as int, sorted@[idx as int]));
                    if j < idx {
                        assert(sorted@[j] == spre[j]);
                        assert(before[j] == spre[j].deep_view());
                    } else if j > idx {
                        assert(sorted@[j] == spre[j - 1]);
                        assert(before[j - 1] == spre[j - 1].deep_view());
                    }
                }
                assert(sorted.deep_view() =~= before.take(idx as int) + seq![discovered[k]]
                    + before.skip(idx as int));
                assert(discovered.take(k + 1).drop_last() =~= discovered.take(k));
                assert(discovered.take(k + 1).last() == discovered[k]);
            }
        }
        proof {
            assert(discovered.take(total as int) =~= discovered);
            lemma_sort_cases_sorted(discovered);
        }
        self.test_cases = sorted;
    }

    /// Run every stored case in order against `tool`, one at a time: the
    /// single-worker policy used for debugging and filtered runs.
    pub fn run_sequential<T: Tool>(&mut self, tool: &mut T)
        ensures
            final(self).name == old(self).name,
            final(self).skipped_paths == old(self).skipped_paths,
            final(self)@.cases == run_cases_model(*old(tool), old(self)@.cases),
            forall|u: UnitModel| #[trigger]
                final(tool).outcome_of(u) == old(tool).outcome_of(u),
    {
        let ghost t0 = *tool;
        let ghost cs0 = old(self)@.cases;
        let ghost total = cs0.len();
        let mut done: Vec<Case> = Vec::new();
        proof {
            assert(self.test_cases.deep_view() =~= cs0.skip(0));
            assert(done.deep_view() =~= run_cases_model(t0, cs0).take(0));
        }
        while self.test_cases.len() > 0
            invariant
                self.name == old(self).name,
                self.skipped_paths == old(self).skipped_paths,
                t0 == *old(tool),
                cs0 == old(self)@.cases,
                total == cs0.len(),
                done.len() + self.test_cases.len() == total,
                self.test_cases.deep_view() == cs0.skip(done.len() as int),
                done.deep_view() == run_cases_model(t0, cs0).take(done.len() as int),
                forall|u: UnitModel| #[trigger] tool.outcome_of(u) == t0.outcome_of(u),
            decreases self.test_cases.len(),
        {
            let ghost k = done.len() as int;
            let ghost pre = self.test_cases@;
            let ghost pre_dv = self.test_cases.deep_view();
            let mut c = self.test_cases.remove(0);
            proof {
                assert(pre_dv[0] == pre[0].deep_view());
                assert(c@ == cs0.skip(k)[0]);
                assert(cs0.skip(k)[0] == cs0[k]);
                assert forall|j: int| 0 <= j < self.test_cases@.len() implies self
                    .test_cases
                    .deep_view()[j] == cs0.skip(k + 1)[j] by {
                    assert(self.test_cases@[j] == pre[j + 1]);
                    assert(pre_dv[j + 1] == pre[j + 1].deep_view());
                    assert(pre_dv[j + 1] == cs0.skip(k)[j + 1]);
                }
                assert(self.test_cases.deep_view() =~= cs0.skip(k + 1));
            }
            let ghost t_before = *tool;
            let _ = c.run(tool);
            proof {
                assert(outcomes_of(t_before, cs0[k].units) =~= outcomes_of(t0, cs0[k].units));
                assert(run_case_model(t_before, cs0[k]) =~= run_case_model(t0, cs0[k]));
            }
            let ghost cm = c@;
            let ghost dpre = done@;
            let ghost dpre_dv = done.deep_view();
            done.push(c);
            proof {
                assert(cm == run_case_model(t0, cs0[k]));
                assert(run_cases_model(t0, cs0)[k] == run_case_model(t0, cs0[k]));
                assert forall|j: int| 0 <= j < done@.len() implies done.deep_view()[j]
                    == run_cases_model(t0, cs0).take(k + 1)[j] by {
                    if j < k {
                        assert(done@[j] == dpre[j]);
                        assert(dpre_dv[j] == dpre[j].deep_view());
                    }
                }
                assert(done.deep_view() =~= run_cases_model(t0, cs0).take(k + 1));
            }
        }
        proof {
            assert(run_cases_model(t0, cs0).take(total as int) =~= run_cases_model(t0, cs0));
        }
        self.test_cases = done;
    }

    /// Run every stored case across the worker pool: the default parallel
    /// policy. Each worker writes only to the case it was given, so the
    /// final state is the same as a sequential run's.
    pub fn run_parallel<T: Tool + Copy + Send + Sync>(&mut self, tool: &T)
        ensures
            final(self).name == old(self).name,
            final(self).skipped_paths == old(self).skipped_paths,
            final(self)@.cases == run_cases_model(*tool, old(self)@.cases),
    {
        run_cases_pool(&mut self.test_cases, tool);
    }
}

} // verus!
