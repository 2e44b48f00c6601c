use test_suite::code::{Code, TestCase};
use test_suite::db::{DbEntry, InputWithSubstrs, RawRegex, RegexFragment, RegexInput, SamplesPass};
use test_suite::tester::{
    test_regex, Error, RunOutcome, StandardTestResult, SubstringTestResult, TestResult, TestSession,
};

fn strings(v: &[&str]) -> Vec<String> {
    v.iter().map(|s| s.to_string()).collect()
}

fn fragment(is_public: bool, regex_def: &str) -> RegexFragment {
    RegexFragment { is_public, regex_def: regex_def.to_string() }
}

fn raw_entry(regex: &str, input_size: usize, pass: &[&str], fail: &[&str]) -> DbEntry {
    DbEntry {
        regex: RegexInput::Raw(RawRegex::Simple(regex.to_string())),
        gen_substrs: false,
        input_size,
        samples_pass: SamplesPass::WithoutSubstrs(strings(pass)),
        samples_fail: strings(fail),
        with_bench: false,
        benchmark_str: String::new(),
    }
}

/// A toolchain whose matcher accepts exactly the inputs holding a match of
/// `pattern` somewhere; substring tests pass where the input is accepted.
fn containment_toolchain(pattern: &str, case: &TestCase) -> RunOutcome {
    let accepts = |s: &str| matches!(test_suite::oracle::matches(pattern, s), Ok(true));
    let passed = match case {
        TestCase::NoTest => true,
        TestCase::Standard { input, should_fail } => accepts(input) != *should_fail,
        TestCase::Substring(x) => accepts(&x.input),
    };
    if passed {
        RunOutcome::Passed
    } else {
        RunOutcome::Failed
    }
}

/// Runs every planned test of `session` and collects the rendered sources.
fn run_all(
    session: &mut TestSession,
    code: &mut Code,
    mut toolchain: impl FnMut(&TestCase, &str) -> RunOutcome,
) -> Vec<String> {
    let mut sources = Vec::new();
    while let Some(text) = session.next_source(code) {
        let outcome = toolchain(code.test_case(), &text);
        sources.push(text);
        session.record(outcome);
    }
    assert!(session.is_finished());
    sources
}

fn standard_report(result: &TestResult) -> (Vec<String>, Vec<String>, Vec<String>) {
    match result {
        TestResult::Standard(r) => (r.successful_tests(), r.false_positives(), r.false_negatives()),
        TestResult::Substring(_) => panic!("expected a standard report"),
    }
}

#[test]
fn containment_semantics_scenario() {
    let entry = raw_entry("a+", 5, &["a", "aaa"], &["b", "aab"]);
    let mut session = TestSession::new(&entry, &Vec::new(), &Vec::new()).ok().unwrap();
    let mut code = Code::new(&entry, "CODE".to_string());
    let sources = run_all(&mut session, &mut code, |case, _| containment_toolchain("a+", case));
    assert_eq!(sources.len(), 4);
    match session.finish() {
        Err(Error::TestFailed(result)) => {
            assert!(!result.passed());
            let (ok, fp, fneg) = standard_report(&result);
            assert_eq!(ok, strings(&["a", "aaa", "b"]));
            assert_eq!(fp, strings(&["aab"]));
            assert!(fneg.is_empty());
        }
        _ => panic!("expected a failed test"),
    }
}

#[test]
fn all_correct_verdicts_pass() {
    let entry = raw_entry("a+", 5, &["a", "aaa"], &["b"]);
    let mut session = TestSession::new(&entry, &Vec::new(), &Vec::new()).ok().unwrap();
    let mut code = Code::new(&entry, "CODE".to_string());
    run_all(&mut session, &mut code, |case, _| containment_toolchain("a+", case));
    match session.finish() {
        Ok(result) => {
            assert!(result.passed());
            let (ok, fp, fneg) = standard_report(&result);
            assert_eq!(ok, strings(&["a", "aaa", "b"]));
            assert!(fp.is_empty() && fneg.is_empty());
        }
        _ => panic!("expected a passed test"),
    }
}

#[test]
fn oversized_passing_sample_is_a_false_negative() {
    let entry = raw_entry("a+", 2, &["aaa"], &[]);
    let mut session = TestSession::new(&entry, &Vec::new(), &Vec::new()).ok().unwrap();
    let mut code = Code::new(&entry, "CODE".to_string());
    // The toolchain fails on an input longer than the input array.
    let sources = run_all(&mut session, &mut code, |case, _| match case {
        TestCase::Standard { input, .. } if input.len() > 2 => RunOutcome::Failed,
        _ => RunOutcome::Passed,
    });
    assert_eq!(sources.len(), 1);
    assert!(sources[0].contains("fn main(input: [u8; 2])"));
    assert!(sources[0].contains("let input = [97, 97, 97];"));
    assert!(sources[0].contains("#[test]\nfn test()"));
    match session.finish() {
        Err(Error::TestFailed(result)) => {
            let (ok, fp, fneg) = standard_report(&result);
            assert!(ok.is_empty() && fp.is_empty());
            assert_eq!(fneg, strings(&["aaa"]));
        }
        _ => panic!("expected a failed test"),
    }
}

#[test]
fn random_samples_take_the_oracle_verdict() {
    let entry = raw_entry("a+", 5, &[], &[]);
    let random = strings(&["aa", "b"]);
    let mut session = TestSession::new(&entry, &random, &Vec::new()).ok().unwrap();
    let mut code = Code::new(&entry, "C".to_string());
    let mut cases = Vec::new();
    run_all(&mut session, &mut code, |case, _| {
        cases.push(case.duplicate());
        RunOutcome::Failed
    });
    assert!(matches!(&cases[0], TestCase::Standard { input, should_fail: false } if input == "aa"));
    assert!(matches!(&cases[1], TestCase::Standard { input, should_fail: true } if input == "b"));
    match session.finish() {
        Err(Error::TestFailed(result)) => {
            let (ok, fp, fneg) = standard_report(&result);
            assert!(ok.is_empty());
            assert_eq!(fp, strings(&["b"]));
            assert_eq!(fneg, strings(&["aa"]));
        }
        _ => panic!("expected a failed test"),
    }
}

#[test]
fn oracle_match_renders_a_test_that_must_succeed() {
    let entry = raw_entry("[0-9]+", 8, &[], &[]);
    let random = strings(&["x42"]);
    let session = TestSession::new(&entry, &random, &Vec::new()).ok().unwrap();
    let mut code = Code::new(&entry, "C".to_string());
    let text = session.next_source(&mut code).unwrap();
    let input = "x42".to_string();
    assert_eq!(text, code.print_code(Some(&input), None, false));
    assert!(!text.contains("should_fail"));
}

#[test]
fn broken_oracle_pattern_is_fatal_with_random_samples() {
    let entry = raw_entry("(a", 5, &["a"], &[]);
    match TestSession::new(&entry, &strings(&["a"]), &Vec::new()) {
        Err(Error::PatternCompilationFailed(p)) => assert_eq!(p, "(a"),
        _ => panic!("expected a compilation failure"),
    }
    // Without random samples the oracle is never asked.
    assert!(TestSession::new(&entry, &Vec::new(), &Vec::new()).is_ok());
    assert!(test_regex(&entry).is_ok());
}

#[test]
fn skipped_runs_stay_out_of_the_report() {
    let entry = raw_entry("a", 5, &["a", "aa"], &["b"]);
    let mut session = TestSession::new(&entry, &Vec::new(), &Vec::new()).ok().unwrap();
    let mut code = Code::new(&entry, "C".to_string());
    run_all(&mut session, &mut code, |case, _| match case {
        TestCase::Standard { input, .. } if input == "aa" => RunOutcome::NotRun,
        _ => RunOutcome::Passed,
    });
    match session.finish() {
        Ok(result) => {
            let (ok, _, _) = standard_report(&result);
            assert_eq!(ok, strings(&["a", "b"]));
        }
        _ => panic!("expected a passed test"),
    }
}

fn substring_entry(regex: RegexInput) -> DbEntry {
    DbEntry {
        regex,
        gen_substrs: true,
        input_size: 16,
        samples_pass: SamplesPass::WithSubstrs(vec![InputWithSubstrs {
            input: "From:bob@".to_string(),
            expected_substrings: strings(&["bob"]),
        }]),
        samples_fail: strings(&["To:x@"]),
        with_bench: false,
        benchmark_str: String::new(),
    }
}

#[test]
fn substring_flow_reports_failed_extractions() {
    let fragments = vec![fragment(false, "From:"), fragment(true, "[a-z]+"), fragment(false, "@")];
    let entry = substring_entry(RegexInput::Decomposed(fragments));
    let random = vec![InputWithSubstrs {
        input: "From:al@".to_string(),
        expected_substrings: strings(&["al"]),
    }];
    let mut session = TestSession::new(&entry, &Vec::new(), &random).ok().unwrap();
    let mut code = Code::new(&entry, "C".to_string());
    let mut kinds = Vec::new();
    run_all(&mut session, &mut code, |case, _| {
        kinds.push(match case {
            TestCase::Substring(_) => "substring",
            TestCase::Standard { should_fail: true, .. } => "must fail",
            _ => "other",
        });
        match case {
            TestCase::Substring(x) if x.input == "From:bob@" => RunOutcome::Failed,
            TestCase::Standard { .. } => RunOutcome::Failed,
            _ => RunOutcome::Passed,
        }
    });
    assert_eq!(kinds, vec!["substring", "substring", "must fail"]);
    match session.finish() {
        Err(Error::TestFailed(TestResult::Substring(r))) => {
            assert!(!r.passed());
            assert_eq!(r.standard_test_result().successful_tests(), strings(&["From:al@"]));
            assert_eq!(r.standard_test_result().false_positives(), strings(&["To:x@"]));
            assert!(r.standard_test_result().false_negatives().is_empty());
            assert_eq!(r.incorrect_substring_tests(), strings(&["From:bob@"]));
        }
        _ => panic!("expected a failed substring test"),
    }
}

#[test]
fn raw_regex_substring_flow_skips_random_draws() {
    let entry = substring_entry(RegexInput::Raw(RawRegex::Simple("From:[a-z]+@".to_string())));
    let random = vec![InputWithSubstrs {
        input: "From:al@".to_string(),
        expected_substrings: strings(&["al"]),
    }];
    let mut session = TestSession::new(&entry, &Vec::new(), &random).ok().unwrap();
    let mut code = Code::new(&entry, "C".to_string());
    let sources = run_all(&mut session, &mut code, |_, _| RunOutcome::Passed);
    assert_eq!(sources.len(), 2);
    match session.finish() {
        Ok(TestResult::Substring(r)) => {
            assert!(r.passed());
            assert_eq!(
                r.standard_test_result().successful_tests(),
                strings(&["From:bob@", "To:x@"])
            );
        }
        _ => panic!("expected a passed substring test"),
    }
}

#[test]
fn rerun_with_same_draws_and_verdicts_gives_identical_report() {
    let entry = raw_entry("a+", 5, &["a", "aaa"], &["b", "aab"]);
    let random = strings(&["aaaa", "ba"]);
    let mut reports = Vec::new();
    for _ in 0..2 {
        let mut session = TestSession::new(&entry, &random, &Vec::new()).ok().unwrap();
        let mut code = Code::new(&entry, "C".to_string());
        run_all(&mut session, &mut code, |case, _| containment_toolchain("a+", case));
        match session.finish() {
            Err(Error::TestFailed(result)) => reports.push(standard_report(&result)),
            _ => panic!("expected a failed test"),
        }
    }
    assert_eq!(reports[0], reports[1]);
    assert_eq!(reports[0].0, strings(&["aaaa", "ba", "a", "aaa", "b"]));
    assert_eq!(reports[0].1, strings(&["aab"]));
}

#[test]
fn test_regex_plans_random_and_given_samples() {
    let entry = raw_entry("a+", 3, &["a"], &["b"]);
    let mut session = test_regex(&entry).ok().unwrap();
    let mut code = Code::new(&entry, "C".to_string());
    let mut cases = Vec::new();
    run_all(&mut session, &mut code, |case, _| {
        cases.push(case.duplicate());
        RunOutcome::Passed
    });
    assert_eq!(cases.len(), 12);
    for case in &cases[..10] {
        match case {
            TestCase::Standard { input, should_fail } => {
                assert!(!*should_fail, "{:?}", input);
                assert!(input.chars().all(|c| c == 'a') && !input.is_empty());
            }
            _ => panic!("expected standard tests"),
        }
    }
    assert!(session.finish().is_ok());
}

#[test]
fn test_regex_draws_fragments_for_decomposed_substring_entries() {
    let fragments = vec![fragment(false, "From:"), fragment(true, "[a-z]+"), fragment(false, "@")];
    let entry = substring_entry(RegexInput::Decomposed(fragments));
    let mut session = test_regex(&entry).ok().unwrap();
    let mut code = Code::new(&entry, "C".to_string());
    let mut substring_tests = 0;
    run_all(&mut session, &mut code, |case, text| {
        if let TestCase::Substring(x) = case {
            substring_tests += 1;
            assert!(x.input.starts_with("From:") && x.input.ends_with('@'));
            assert!(text.contains("assert(capture_sequences.len() == 1);"));
        }
        RunOutcome::Passed
    });
    assert_eq!(substring_tests, 11);
}

#[test]
fn report_constructors_and_verdicts() {
    let r = StandardTestResult::new(strings(&["a"]), Vec::new(), Vec::new());
    assert!(r.passed());
    assert!(TestResult::Standard(r).passed());
    let r = StandardTestResult::new(Vec::new(), strings(&["b"]), Vec::new());
    assert!(!r.passed());
    let r = StandardTestResult::new(Vec::new(), Vec::new(), strings(&["c"]));
    assert!(!r.passed());
    assert_eq!(r.false_negatives(), strings(&["c"]));

    let s = SubstringTestResult::new(strings(&["a"]), Vec::new(), Vec::new());
    assert!(s.passed());
    assert!(s.standard_test_result().false_negatives().is_empty());
    let s = SubstringTestResult::new(strings(&["a"]), Vec::new(), strings(&["x"]));
    assert!(!s.passed());
    assert!(!TestResult::Substring(s).passed());
    let s = SubstringTestResult::new(Vec::new(), strings(&["f"]), Vec::new());
    assert!(!s.passed());
}
