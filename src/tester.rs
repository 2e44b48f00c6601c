//! Reports of a differential test and the comparator that builds them.

use vstd::prelude::*;
use vstd::utf8::encode_utf8;

use crate::code::{case_text, standard_test_text, CaseView, Code, TestCase};
use crate::db::{copy_strings, strings_view, DbEntry, InputWithSubstrs, RegexInput, SamplesPass};
use crate::oracle::{regex_compiles, regex_finds};
use crate::sampler::{
    draw_fragment_samples, draw_whole_samples, drawn_from_fragments, repeat_bound, sampler_available,
    DEFAULT_SAMPLE_NUMBER,
};

verus! {

/// Errors of the testing phase.
pub enum Error {
    /// At least one sample was judged wrongly; carries the full report.
    TestFailed(TestResult),
    /// The reference engine cannot compile the pattern, so no verdict of it
    /// can be trusted.
    PatternCompilationFailed(String),
}

/// Report of a test without substring extraction.
pub struct StandardTestResult {
    /// Inputs correctly accepted or correctly rejected.
    successful_tests: Vec<String>,
    /// Inputs that should have been rejected but were accepted.
    false_positives: Vec<String>,
    /// Inputs that should have been accepted but were rejected.
    false_negatives: Vec<String>,
}

/// Report of a test with substring extraction.
pub struct SubstringTestResult {
    standard_test_result: StandardTestResult,
    /// Substring tests that failed: either the match or the extraction was
    /// wrong; these call for a manual check.
    incorrect_substring_tests: Vec<String>,
}

/// The report of one regex.
pub enum TestResult {
    Standard(StandardTestResult),
    Substring(SubstringTestResult),
}

impl StandardTestResult {
    pub closed spec fn spec_successful_tests(&self) -> Seq<Seq<char>> {
        strings_view(self.successful_tests@)
    }

    pub closed spec fn spec_false_positives(&self) -> Seq<Seq<char>> {
        strings_view(self.false_positives@)
    }

    pub closed spec fn spec_false_negatives(&self) -> Seq<Seq<char>> {
        strings_view(self.false_negatives@)
    }

    pub open spec fn spec_passed(&self) -> bool {
        self.spec_false_positives().len() == 0 && self.spec_false_negatives().len() == 0
    }

    /// Creates a report from its three lists.
    pub fn new(
        successful_tests: Vec<String>,
        false_positives: Vec<String>,
        false_negatives: Vec<String>,
    ) -> (r: Self)
        ensures
            r.spec_successful_tests() == strings_view(successful_tests@),
            r.spec_false_positives() == strings_view(false_positives@),
            r.spec_false_negatives() == strings_view(false_negatives@),
    {
        Self { successful_tests, false_positives, false_negatives }
    }

    /// Whether every sample was judged correctly.
    pub fn passed(&self) -> (r: bool)
        ensures
            r == self.spec_passed(),
    {
        self.false_positives.len() == 0 && self.false_negatives.len() == 0
    }

    pub fn successful_tests(&self) -> (r: Vec<String>)
        ensures
            strings_view(r@) == self.spec_successful_tests(),
    {
        copy_strings(&self.successful_tests)
    }

    pub fn false_positives(&self) -> (r: Vec<String>)
        ensures
            strings_view(r@) == self.spec_false_positives(),
    {
        copy_strings(&self.false_positives)
    }

    pub fn false_negatives(&self) -> (r: Vec<String>)
        ensures
            strings_view(r@) == self.spec_false_negatives(),
    {
        copy_strings(&self.false_negatives)
    }
}

impl SubstringTestResult {
    pub closed spec fn spec_standard(&self) -> StandardTestResult {
        self.standard_test_result
    }

    pub closed spec fn spec_incorrect_substring_tests(&self) -> Seq<Seq<char>> {
        strings_view(self.incorrect_substring_tests@)
    }

    pub open spec fn spec_passed(&self) -> bool {
        self.spec_standard().spec_passed() && self.spec_incorrect_substring_tests().len() == 0
    }

    /// Creates a report; failed substring tests take the place of false
    /// negatives, which stay empty.
    pub fn new(
        successful_tests: Vec<String>,
        false_positives: Vec<String>,
        incorrect_substring_tests: Vec<String>,
    ) -> (r: Self)
        ensures
            r.spec_standard().spec_successful_tests() == strings_view(successful_tests@),
            r.spec_standard().spec_false_positives() == strings_view(false_positives@),
            r.spec_standard().spec_false_negatives().len() == 0,
            r.spec_incorrect_substring_tests() == strings_view(incorrect_substring_tests@),
    {
        let standard_test_result = StandardTestResult::new(
            successful_tests,
            false_positives,
            Vec::new(),
        );
        Self { standard_test_result, incorrect_substring_tests }
    }

    /// Whether every sample was judged correctly.
    pub fn passed(&self) -> (r: bool)
        ensures
            r == self.spec_passed(),
    {
        self.standard_test_result.passed() && self.incorrect_substring_tests.len() == 0
    }

    pub fn standard_test_result(&self) -> (r: &StandardTestResult)
        ensures
            *r == self.spec_standard(),
    {
        &self.standard_test_result
    }

    pub fn incorrect_substring_tests(&self) -> (r: Vec<String>)
        ensures
            strings_view(r@) == self.spec_incorrect_substring_tests(),
    {
        copy_strings(&self.incorrect_substring_tests)
    }
}

impl TestResult {
    pub open spec fn spec_passed(&self) -> bool {
        match self {
            TestResult::Standard(r) => r.spec_passed(),
            TestResult::Substring(r) => r.spec_passed(),
        }
    }

    /// Whether every sample was judged correctly.
    pub fn passed(&self) -> (r: bool)
        ensures
            r == self.spec_passed(),
    {
        match self {
            TestResult::Standard(result) => result.passed(),
            TestResult::Substring(result) => result.passed(),
        }
    }
}

/// What running one rendered test through the toolchain gave.
#[derive(Clone, Copy, PartialEq, Eq, Structural, Debug)]
pub enum RunOutcome {
    /// The test passed as annotated: every assertion held, or the test
    /// failed where it was marked to fail.
    Passed,
    /// The test did not pass as annotated.
    Failed,
    /// The test could not be written out or the toolchain could not be
    /// started; the sample is left out of the report.
    NotRun,
}

/// The four lists of a report, as character sequences.
pub struct Buckets {
    pub successful: Seq<Seq<char>>,
    pub false_positives: Seq<Seq<char>>,
    pub false_negatives: Seq<Seq<char>>,
    pub incorrect_substrings: Seq<Seq<char>>,
}

pub open spec fn empty_buckets() -> Buckets {
    Buckets {
        successful: Seq::empty(),
        false_positives: Seq::empty(),
        false_negatives: Seq::empty(),
        incorrect_substrings: Seq::empty(),
    }
}

/// The input of a test case.
pub open spec fn case_input(case: CaseView) -> Seq<char> {
    match case {
        CaseView::NoTest => Seq::empty(),
        CaseView::Standard { input, .. } => input,
        CaseView::Substring { input, .. } => input,
    }
}

/// Files the input of `case` under the outcome of its run: a pass is a
/// success; a failure is a false positive for an input that must be rejected,
/// a false negative for one that must be accepted, and an incorrect substring
/// test for a substring test.
pub open spec fn record_outcome(b: Buckets, case: CaseView, outcome: RunOutcome) -> Buckets {
    let input = case_input(case);
    match outcome {
        RunOutcome::NotRun => b,
        RunOutcome::Passed => Buckets { successful: b.successful.push(input), ..b },
        RunOutcome::Failed => match case {
            CaseView::NoTest => b,
            CaseView::Standard { should_fail, .. } => if should_fail {
                Buckets { false_positives: b.false_positives.push(input), ..b }
            } else {
                Buckets { false_negatives: b.false_negatives.push(input), ..b }
            },
            CaseView::Substring { .. } => Buckets {
                incorrect_substrings: b.incorrect_substrings.push(input),
                ..b
            },
        },
    }
}

/// The report after the runs of `cases` gave `outcomes`, in order.
pub open spec fn fold_outcomes(cases: Seq<CaseView>, outcomes: Seq<RunOutcome>) -> Buckets
    decreases outcomes.len(),
{
    if outcomes.len() == 0 || cases.len() == 0 {
        empty_buckets()
    } else {
        record_outcome(
            fold_outcomes(cases.drop_last(), outcomes.drop_last()),
            cases.last(),
            outcomes.last(),
        )
    }
}

/// The tests of the substring flow are substring tests and tests that must
/// fail; those of the standard flow are all standard tests.
pub open spec fn fits_flow(cases: Seq<CaseView>, substring_flow: bool) -> bool {
    forall|i: int|
        0 <= i < cases.len() ==> if substring_flow {
            (#[trigger] cases[i]) is Substring || cases[i] matches CaseView::Standard {
                should_fail: true,
                ..
            }
        } else {
            cases[i] is Standard
        }
}

/// A report never holds false negatives in the substring flow, nor incorrect
/// substring tests in the standard flow.
pub proof fn lemma_report_fits_flow(
    cases: Seq<CaseView>,
    outcomes: Seq<RunOutcome>,
    substring_flow: bool,
)
    requires
        fits_flow(cases, substring_flow),
    ensures
        substring_flow ==> fold_outcomes(cases, outcomes).false_negatives.len() == 0,
        !substring_flow ==> fold_outcomes(cases, outcomes).incorrect_substrings.len() == 0,
    decreases outcomes.len(),
{
    if outcomes.len() > 0 && cases.len() > 0 {
        let rest = cases.drop_last();
        assert forall|i: int| 0 <= i < rest.len() implies if substring_flow {
            (#[trigger] rest[i]) is Substring || rest[i] matches CaseView::Standard {
                should_fail: true,
                ..
            }
        } else {
            rest[i] is Standard
        } by {
            assert(rest[i] == cases[i]);
        }
        lemma_report_fits_flow(rest, outcomes.drop_last(), substring_flow);
        assert(cases.last() == cases[cases.len() - 1]);
    }
}

pub open spec fn case_views(cases: Seq<TestCase>) -> Seq<CaseView> {
    cases.map_values(|c: TestCase| c@)
}

/// Standard tests of `samples`, all with the same expectation.
pub open spec fn expect_cases(samples: Seq<Seq<char>>, should_fail: bool) -> Seq<CaseView> {
    samples.map_values(|s: Seq<char>| CaseView::Standard { input: s, should_fail })
}

/// Standard tests of `samples`, each expected to fail exactly where the
/// reference engine finds no match of `pattern`.
pub open spec fn oracle_cases(pattern: Seq<char>, samples: Seq<Seq<char>>) -> Seq<CaseView> {
    samples.map_values(
        |s: Seq<char>| CaseView::Standard { input: s, should_fail: !regex_finds(pattern, s) },
    )
}

/// Substring tests of `samples`.
pub open spec fn substring_cases(samples: Seq<InputWithSubstrs>) -> Seq<CaseView> {
    samples.map_values(
        |x: InputWithSubstrs|
            CaseView::Substring { input: x.input@, expected: strings_view(x.expected_substrings@) },
    )
}

/// Whether the entry's passing samples carry substrings to extract.
pub open spec fn is_substring_flow(entry: DbEntry) -> bool {
    entry.samples_pass is WithSubstrs
}

/// The tests run for `entry`, in order, given its random draws: whole-regex
/// draws for the standard flow, fragment draws for the substring flow of a
/// decomposed regex.
pub open spec fn planned_cases(
    entry: DbEntry,
    random_whole: Seq<Seq<char>>,
    random_fragments: Seq<InputWithSubstrs>,
) -> Seq<CaseView> {
    let fail = expect_cases(strings_view(entry.samples_fail@), true);
    match entry.samples_pass {
        SamplesPass::WithSubstrs(pass) => (if entry.regex is Decomposed {
            substring_cases(random_fragments)
        } else {
            Seq::empty()
        }) + substring_cases(pass@) + fail,
        SamplesPass::WithoutSubstrs(pass) => oracle_cases(
            entry.regex.spec_complete_regex(),
            random_whole,
        ) + expect_cases(strings_view(pass@), false) + fail,
    }
}

proof fn lemma_plan_fits_flow(
    entry: DbEntry,
    random_whole: Seq<Seq<char>>,
    random_fragments: Seq<InputWithSubstrs>,
)
    ensures
        fits_flow(planned_cases(entry, random_whole, random_fragments), is_substring_flow(entry)),
{
    let plan = planned_cases(entry, random_whole, random_fragments);
    let fail = expect_cases(strings_view(entry.samples_fail@), true);
    match entry.samples_pass {
        SamplesPass::WithSubstrs(pass) => {
            let first = if entry.regex is Decomposed {
                substring_cases(random_fragments)
            } else {
                Seq::empty()
            };
            let subs = first + substring_cases(pass@);
            assert forall|i: int| 0 <= i < plan.len() implies (#[trigger] plan[i]) is Substring
                || plan[i] matches CaseView::Standard { should_fail: true, .. } by {
                if i < first.len() {
                    assert(plan[i] == first[i]);
                } else if i < subs.len() {
                    assert(plan[i] == substring_cases(pass@)[i - first.len()]);
                } else {
                    assert(plan[i] == fail[i - subs.len()]);
                }
            }
        },
        SamplesPass::WithoutSubstrs(pass) => {
            let oc = oracle_cases(entry.regex.spec_complete_regex(), random_whole);
            let front = oc + expect_cases(strings_view(pass@), false);
            assert forall|i: int| 0 <= i < plan.len() implies (#[trigger] plan[i]) is Standard by {
                if i < oc.len() {
                    assert(plan[i] == oc[i]);
                } else if i < front.len() {
                    assert(plan[i] == expect_cases(strings_view(pass@), false)[i - oc.len()]);
                } else {
                    assert(plan[i] == fail[i - front.len()]);
                }
            }
        },
    }
}

fn push_expect_cases(cases: &mut Vec<TestCase>, samples: &Vec<String>, should_fail: bool)
    ensures
        case_views(final(cases)@) == case_views(old(cases)@) + expect_cases(
            strings_view(samples@),
            should_fail,
        ),
{
    let ghost start = case_views(cases@);
    let mut i: usize = 0;
    while i < samples.len()
        invariant
            i <= samples.len(),
            case_views(cases@) == start + expect_cases(
                strings_view(samples@.take(i as int)),
                should_fail,
            ),
        decreases samples.len() - i,
    {
        let ghost prev = cases@;
        let case = TestCase::Standard { input: samples[i].clone(), should_fail };
        cases.push(case);
        proof {
            let sv = strings_view(samples@.take(i as int));
            assert(strings_view(samples@.take(i as int + 1)) =~= sv.push(samples@[i as int]@));
            assert(case_views(cases@) =~= case_views(prev).push(case@));
            assert(expect_cases(sv.push(samples@[i as int]@), should_fail) =~= expect_cases(
                sv,
                should_fail,
            ).push(case@));
            assert(case_views(cases@) =~= start + expect_cases(
                strings_view(samples@.take(i as int + 1)),
                should_fail,
            ));
        }
        i = i + 1;
    }
    assert(samples@.take(samples.len() as int) =~= samples@);
}

fn push_substring_cases(cases: &mut Vec<TestCase>, samples: &Vec<InputWithSubstrs>)
    ensures
        case_views(final(cases)@) == case_views(old(cases)@) + substring_cases(samples@),
{
    let ghost start = case_views(cases@);
    let mut i: usize = 0;
    while i < samples.len()
        invariant
            i <= samples.len(),
            case_views(cases@) == start + substring_cases(samples@.take(i as int)),
        decreases samples.len() - i,
    {
        let x = &samples[i];
        let ghost prev = cases@;
        let case = TestCase::Substring(
            InputWithSubstrs {
                input: x.input.clone(),
                expected_substrings: copy_strings(&x.expected_substrings),
            },
        );
        cases.push(case);
        proof {
            let st = samples@.take(i as int);
            assert(samples@.take(i as int + 1) =~= st.push(*x));
            assert(case_views(cases@) =~= case_views(prev).push(case@));
            assert(substring_cases(st.push(*x)) =~= substring_cases(st).push(case@));
            assert(case_views(cases@) =~= start + substring_cases(samples@.take(i as int + 1)));
        }
        i = i + 1;
    }
    assert(samples@.take(samples.len() as int) =~= samples@);
}

/// Asks the reference engine about each sample and plans a standard test that
/// expects exactly its verdict.
fn push_oracle_cases(cases: &mut Vec<TestCase>, pattern: &String, samples: &Vec<String>) -> (r:
    Result<(), Error>)
    ensures
        r is Ok <==> (samples.len() == 0 || regex_compiles(pattern@)),
        r is Ok ==> case_views(final(cases)@) == case_views(old(cases)@) + oracle_cases(
            pattern@,
            strings_view(samples@),
        ),
        r is Err ==> (r matches Err(Error::PatternCompilationFailed(p)) && p@ == pattern@),
{
    let ghost start = case_views(cases@);
    let mut i: usize = 0;
    while i < samples.len()
        invariant
            i <= samples.len(),
            i > 0 ==> regex_compiles(pattern@),
            case_views(cases@) == start + oracle_cases(
                pattern@,
                strings_view(samples@.take(i as int)),
            ),
        decreases samples.len() - i,
    {
        let ghost prev = cases@;
        let found = match crate::oracle::matches(pattern.as_str(), samples[i].as_str()) {
            Ok(found) => found,
            Err(e) => {
                return Err(e);
            },
        };
        let case = TestCase::Standard { input: samples[i].clone(), should_fail: !found };
        cases.push(case);
        proof {
            let sv = strings_view(samples@.take(i as int));
            assert(strings_view(samples@.take(i as int + 1)) =~= sv.push(samples@[i as int]@));
            assert(case_views(cases@) =~= case_views(prev).push(case@));
            assert(oracle_cases(pattern@, sv.push(samples@[i as int]@)) =~= oracle_cases(
                pattern@,
                sv,
            ).push(case@));
            assert(case_views(cases@) =~= start + oracle_cases(
                pattern@,
                strings_view(samples@.take(i as int + 1)),
            ));
        }
        i = i + 1;
    }
    assert(samples@.take(samples.len() as int) =~= samples@);
    Ok(())
}

/// Whether `res` is the report of `b`: a substring report for the substring
/// flow, a standard one otherwise.
pub open spec fn is_report_of(res: TestResult, b: Buckets, substring_flow: bool) -> bool {
    if substring_flow {
        &&& res matches TestResult::Substring(r)
        &&& r.spec_standard().spec_successful_tests() == b.successful
        &&& r.spec_standard().spec_false_positives() == b.false_positives
        &&& r.spec_standard().spec_false_negatives().len() == 0
        &&& r.spec_incorrect_substring_tests() == b.incorrect_substrings
    } else {
        &&& res matches TestResult::Standard(r)
        &&& r.spec_successful_tests() == b.successful
        &&& r.spec_false_positives() == b.false_positives
        &&& r.spec_false_negatives() == b.false_negatives
    }
}

/// The comparator for one entry: the planned tests, how many have run, and
/// the report so far. Each step renders the next test; each recorded outcome
/// files its sample.
pub struct TestSession {
    cases: Vec<TestCase>,
    substring_flow: bool,
    next: usize,
    successful: Vec<String>,
    false_positives: Vec<String>,
    false_negatives: Vec<String>,
    incorrect_substrings: Vec<String>,
    outcomes: Ghost<Seq<RunOutcome>>,
}

impl TestSession {
    pub closed spec fn spec_cases(&self) -> Seq<CaseView> {
        case_views(self.cases@)
    }

    pub closed spec fn spec_outcomes(&self) -> Seq<RunOutcome> {
        self.outcomes@
    }

    pub closed spec fn spec_substring_flow(&self) -> bool {
        self.substring_flow
    }

    pub closed spec fn spec_buckets(&self) -> Buckets {
        Buckets {
            successful: strings_view(self.successful@),
            false_positives: strings_view(self.false_positives@),
            false_negatives: strings_view(self.false_negatives@),
            incorrect_substrings: strings_view(self.incorrect_substrings@),
        }
    }

    /// Every planned test has run.
    pub open spec fn spec_finished(&self) -> bool {
        self.spec_outcomes().len() == self.spec_cases().len()
    }

    /// The report holds exactly the outcomes recorded so far.
    pub closed spec fn wf(&self) -> bool {
        &&& fits_flow(self.spec_cases(), self.substring_flow)
        &&& self.next == self.outcomes@.len()
        &&& self.next <= self.cases@.len()
        &&& self.spec_buckets() == fold_outcomes(
            self.spec_cases().take(self.next as int),
            self.outcomes@,
        )
    }

    /// Plans the tests of `regex_input` from its random draws: each whole
    /// draw gets the reference engine's verdict as its expectation. Fails
    /// only where whole draws exist and the engine cannot compile the regex.
    pub fn new(
        regex_input: &DbEntry,
        random_whole: &Vec<String>,
        random_fragments: &Vec<InputWithSubstrs>,
    ) -> (r: Result<TestSession, Error>)
        ensures
            r is Err <==> (!is_substring_flow(*regex_input) && random_whole.len() > 0
                && !regex_compiles(regex_input.regex.spec_complete_regex())),
            r is Err ==> (r matches Err(Error::PatternCompilationFailed(p)) && p@
                == regex_input.regex.spec_complete_regex()),
            r matches Ok(s) ==> {
                &&& s.wf()
                &&& s.spec_outcomes().len() == 0
                &&& s.spec_substring_flow() == is_substring_flow(*regex_input)
                &&& s.spec_cases() == planned_cases(
                    *regex_input,
                    strings_view(random_whole@),
                    random_fragments@,
                )
            },
    {
        let mut cases: Vec<TestCase> = Vec::new();
        let substring_flow;
        match &regex_input.samples_pass {
            SamplesPass::WithSubstrs(pass) => {
                substring_flow = true;
                match &regex_input.regex {
                    RegexInput::Decomposed(_) => push_substring_cases(&mut cases, random_fragments),
                    RegexInput::Raw(_) => {},
                }
                push_substring_cases(&mut cases, pass);
                push_expect_cases(&mut cases, &regex_input.samples_fail, true);
            },
            SamplesPass::WithoutSubstrs(pass) => {
                substring_flow = false;
                let pattern = regex_input.regex.complete_regex();
                match push_oracle_cases(&mut cases, &pattern, random_whole) {
                    Ok(()) => {},
                    Err(e) => {
                        return Err(e);
                    },
                }
                push_expect_cases(&mut cases, pass, false);
                push_expect_cases(&mut cases, &regex_input.samples_fail, true);
            },
        }
        proof {
            assert(case_views(Seq::<TestCase>::empty()) =~= Seq::<CaseView>::empty());
            assert(case_views(cases@) =~= planned_cases(
                *regex_input,
                strings_view(random_whole@),
                random_fragments@,
            ));
            lemma_plan_fits_flow(
                *regex_input,
                strings_view(random_whole@),
                random_fragments@,
            );
        }
        let s = TestSession {
            cases,
            substring_flow,
            next: 0,
            successful: Vec::new(),
            false_positives: Vec::new(),
            false_negatives: Vec::new(),
            incorrect_substrings: Vec::new(),
            outcomes: Ghost(Seq::empty()),
        };
        proof {
            assert(strings_view(Seq::<String>::empty()) =~= Seq::<Seq<char>>::empty());
            assert(s.spec_buckets() == empty_buckets());
        }
        Ok(s)
    }

    /// Whether every planned test has run.
    pub fn is_finished(&self) -> (r: bool)
        requires
            self.wf(),
        ensures
            r == self.spec_finished(),
    {
        self.next == self.cases.len()
    }

    /// Puts the next planned test into `code` and returns the source to run;
    /// `None` once every test has run.
    pub fn next_source(&self, code: &mut Code) -> (r: Option<String>)
        requires
            self.wf(),
        ensures
            r is None <==> self.spec_finished(),
            r is None ==> *final(code) == *old(code),
            r matches Some(text) ==> {
                &&& final(code).spec_noir_code() == old(code).spec_noir_code()
                &&& final(code).spec_input_size() == old(code).spec_input_size()
                &&& final(code).spec_test_case()@ == self.spec_cases()[self.spec_outcomes().len() as int]
                &&& text@ == final(code).spec_text()
            },
    {
        if self.next < self.cases.len() {
            code.set_test_case(self.cases[self.next].duplicate());
            Some(code.render())
        } else {
            None
        }
    }

    /// The report once every planned test has run.
    pub open spec fn spec_report(&self) -> Buckets {
        fold_outcomes(self.spec_cases(), self.spec_outcomes())
    }

    /// Ends the session with its report; an error carrying the report where
    /// any sample was judged wrongly.
    pub fn finish(self) -> (r: Result<TestResult, Error>)
        requires
            self.wf(),
            self.spec_finished(),
        ensures
            r matches Ok(res) ==> is_report_of(res, self.spec_report(), self.spec_substring_flow())
                && res.spec_passed(),
            r is Err ==> (r matches Err(Error::TestFailed(res)) && is_report_of(
                res,
                self.spec_report(),
                self.spec_substring_flow(),
            ) && !res.spec_passed()),
            self.spec_substring_flow() ==> self.spec_report().false_negatives.len() == 0,
            !self.spec_substring_flow() ==> self.spec_report().incorrect_substrings.len() == 0,
    {
        assert(self.spec_cases().take(self.next as int) =~= self.spec_cases());
        proof {
            lemma_report_fits_flow(self.spec_cases(), self.spec_outcomes(), self.substring_flow);
        }
        let result = if self.substring_flow {
            TestResult::Substring(
                SubstringTestResult::new(
                    self.successful,
                    self.false_positives,
                    self.incorrect_substrings,
                ),
            )
        } else {
            TestResult::Standard(
                StandardTestResult::new(
                    self.successful,
                    self.false_positives,
                    self.false_negatives,
                ),
            )
        };
        if result.passed() {
            Ok(result)
        } else {
            Err(Error::TestFailed(result))
        }
    }

    /// Files the sample of the current test under `outcome` and moves on.
    pub fn record(&mut self, outcome: RunOutcome)
        requires
            old(self).wf(),
            !old(self).spec_finished(),
        ensures
            final(self).wf(),
            final(self).spec_cases() == old(self).spec_cases(),
            final(self).spec_substring_flow() == old(self).spec_substring_flow(),
            final(self).spec_outcomes() == old(self).spec_outcomes().push(outcome),
    {
        let ghost cases = self.spec_cases();
        let ghost n = self.next as int;
        assert(self.next < self.cases.len());
        let input = match &self.cases[self.next] {
            TestCase::NoTest => String::new(),
            TestCase::Standard { input, .. } => input.clone(),
            TestCase::Substring(x) => x.input.clone(),
        };
        let ghost iv = input@;
        assert(iv == case_input(cases[n]));
        match outcome {
            RunOutcome::NotRun => {},
            RunOutcome::Passed => {
                self.successful.push(input);
            },
            RunOutcome::Failed => match &self.cases[self.next] {
                TestCase::NoTest => {},
                TestCase::Standard { should_fail, .. } => {
                    if *should_fail {
                        self.false_positives.push(input);
                    } else {
                        self.false_negatives.push(input);
                    }
                },
                TestCase::Substring(_) => {
                    self.incorrect_substrings.push(input);
                },
            },
        }
        self.outcomes = Ghost(self.outcomes@.push(outcome));
        self.next = self.next + 1;
        proof {
            let t = cases.take(n + 1);
            assert(t.drop_last() =~= cases.take(n));
            assert(self.outcomes@.drop_last() =~= old(self).outcomes@);
            let ob = old(self).spec_buckets();
            assert(fold_outcomes(t, self.outcomes@) == record_outcome(ob, cases[n], outcome));
            let nb = record_outcome(ob, cases[n], outcome);
            let b = self.spec_buckets();
            assert(b.successful =~= nb.successful);
            assert(b.false_positives =~= nb.false_positives);
            assert(b.false_negatives =~= nb.false_negatives);
            assert(b.incorrect_substrings =~= nb.incorrect_substrings);
        }
    }
}

/// Whether `random_whole` and `random_fragments` are what the random draws for
/// `entry` can be: a fixed number of whole-regex draws in the standard flow
/// where a sampler can be built for the whole regex, and a fixed number of
/// fragment draws in the substring flow of a decomposed regex; nothing else.
pub open spec fn is_random_draw(
    entry: DbEntry,
    random_whole: Seq<Seq<char>>,
    random_fragments: Seq<InputWithSubstrs>,
) -> bool {
    let bound = repeat_bound(entry.input_size);
    &&& random_whole.len() == if !is_substring_flow(entry) && sampler_available(
        entry.regex.spec_complete_regex(),
        bound,
    ) {
        DEFAULT_SAMPLE_NUMBER as nat
    } else {
        0
    }
    &&& match entry.regex {
        RegexInput::Decomposed(parts) if is_substring_flow(entry) => {
            &&& random_fragments.len() == DEFAULT_SAMPLE_NUMBER
            &&& forall|k: int|
                0 <= k < random_fragments.len() ==> drawn_from_fragments(
                    parts@,
                    bound,
                    #[trigger] random_fragments[k].input@,
                    strings_view(random_fragments[k].expected_substrings@),
                )
        },
        _ => random_fragments.len() == 0,
    }
}

/// Starts the differential test of `regex_input`: draws its random samples and
/// plans every test. Fails only in the standard flow, where whole-regex draws
/// exist and the reference engine cannot compile the regex.
pub fn test_regex(regex_input: &DbEntry) -> (r: Result<TestSession, Error>)
    ensures
        r is Err ==> {
            &&& !is_substring_flow(*regex_input)
            &&& sampler_available(
                regex_input.regex.spec_complete_regex(),
                repeat_bound(regex_input.input_size),
            )
            &&& !regex_compiles(regex_input.regex.spec_complete_regex())
            &&& r matches Err(Error::PatternCompilationFailed(p)) && p@
                == regex_input.regex.spec_complete_regex()
        },
        (!is_substring_flow(*regex_input) && sampler_available(
            regex_input.regex.spec_complete_regex(),
            repeat_bound(regex_input.input_size),
        ) && !regex_compiles(regex_input.regex.spec_complete_regex())) ==> r is Err,
        r matches Ok(s) ==> {
            &&& s.wf()
            &&& s.spec_outcomes().len() == 0
            &&& s.spec_substring_flow() == is_substring_flow(*regex_input)
            &&& exists|whole: Seq<Seq<char>>, fragments: Seq<InputWithSubstrs>|
                #[trigger] is_random_draw(*regex_input, whole, fragments) && s.spec_cases()
                    == planned_cases(*regex_input, whole, fragments)
        },
{
    let mut whole: Vec<String> = Vec::new();
    let mut fragments: Vec<InputWithSubstrs> = Vec::new();
    match &regex_input.samples_pass {
        SamplesPass::WithSubstrs(_) => match &regex_input.regex {
            RegexInput::Decomposed(parts) => {
                fragments = draw_fragment_samples(parts, regex_input.input_size);
            },
            RegexInput::Raw(_) => {},
        },
        SamplesPass::WithoutSubstrs(_) => {
            let pattern = regex_input.regex.complete_regex();
            whole = draw_whole_samples(pattern.as_str(), regex_input.input_size);
        },
    }
    assert(is_random_draw(*regex_input, strings_view(whole@), fragments@));
    TestSession::new(regex_input, &whole, &fragments)
}

/// A random whole-regex draw that the reference engine matches is planned as
/// a test that must succeed, and is rendered as such.
pub proof fn lemma_oracle_match_expects_success(
    entry: DbEntry,
    random_whole: Seq<Seq<char>>,
    random_fragments: Seq<InputWithSubstrs>,
    i: int,
)
    requires
        !is_substring_flow(entry),
        0 <= i < random_whole.len(),
        regex_finds(entry.regex.spec_complete_regex(), random_whole[i]),
    ensures
        planned_cases(entry, random_whole, random_fragments)[i] == (CaseView::Standard {
            input: random_whole[i],
            should_fail: false,
        }),
        forall|code: Seq<char>, size: nat|
            #[trigger] case_text(code, size, planned_cases(entry, random_whole, random_fragments)[i])
                == standard_test_text(code, size, encode_utf8(random_whole[i]), false),
{
    let oc = oracle_cases(entry.regex.spec_complete_regex(), random_whole);
    assert(planned_cases(entry, random_whole, random_fragments)[i] == oc[i]);
}

/// In the standard flow a passing sample given by the user is planned in full,
/// whatever its length against the input size, as a test that must succeed;
/// when that run fails, the sample is filed as a false negative.
pub proof fn lemma_given_pass_sample_in_full(
    entry: DbEntry,
    random_whole: Seq<Seq<char>>,
    random_fragments: Seq<InputWithSubstrs>,
    i: int,
    b: Buckets,
)
    requires
        entry.samples_pass is WithoutSubstrs,
        0 <= i < entry.samples_pass->WithoutSubstrs_0@.len(),
    ensures
        ({
            let s = entry.samples_pass->WithoutSubstrs_0@[i]@;
            &&& planned_cases(entry, random_whole, random_fragments)[random_whole.len() + i]
                == (CaseView::Standard { input: s, should_fail: false })
            &&& record_outcome(b, CaseView::Standard { input: s, should_fail: false }, RunOutcome::Failed)
                == (Buckets { false_negatives: b.false_negatives.push(s), ..b })
        }),
{
    let pass = entry.samples_pass->WithoutSubstrs_0@;
    let oc = oracle_cases(entry.regex.spec_complete_regex(), random_whole);
    let ec = expect_cases(strings_view(pass), false);
    assert(planned_cases(entry, random_whole, random_fragments)[random_whole.len() + i] == ec[i]);
}

/// A failing sample given by the user is planned, with no oracle check, as a
/// test that must fail; when the toolchain accepts it anyway, it is filed as
/// a false positive.
pub proof fn lemma_given_fail_sample_expected_to_fail(
    entry: DbEntry,
    random_whole: Seq<Seq<char>>,
    random_fragments: Seq<InputWithSubstrs>,
    j: int,
    b: Buckets,
)
    requires
        0 <= j < entry.samples_fail@.len(),
    ensures
        ({
            let plan = planned_cases(entry, random_whole, random_fragments);
            let s = entry.samples_fail@[j]@;
            &&& plan[plan.len() - entry.samples_fail@.len() + j] == (CaseView::Standard {
                input: s,
                should_fail: true,
            })
            &&& record_outcome(b, CaseView::Standard { input: s, should_fail: true }, RunOutcome::Failed)
                == (Buckets { false_positives: b.false_positives.push(s), ..b })
        }),
{
    let plan = planned_cases(entry, random_whole, random_fragments);
    let fail = expect_cases(strings_view(entry.samples_fail@), true);
    let n = plan.len() - fail.len();
    assert(plan[n + j] == fail[j]);
}

/// The report depends on nothing but the planned tests and the outcomes of
/// their runs: two sessions with the same plan that saw the same outcomes
/// hold identical reports.
pub proof fn lemma_report_deterministic(s1: TestSession, s2: TestSession)
    requires
        s1.wf(),
        s2.wf(),
        s1.spec_cases() == s2.spec_cases(),
        s1.spec_outcomes() == s2.spec_outcomes(),
    ensures
        s1.spec_buckets() == s2.spec_buckets(),
{
}

} // verus!
