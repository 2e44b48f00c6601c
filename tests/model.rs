use test_suite::db::{
    ComponentsWrapper, DbEntry, InputWithSubstrs, RawRegex, RegexDb, RegexFragment, RegexInput,
    SamplesPass, Transitions,
};

fn fragment(is_public: bool, regex_def: &str) -> RegexFragment {
    RegexFragment { is_public, regex_def: regex_def.to_string() }
}

fn strings(v: &[&str]) -> Vec<String> {
    v.iter().map(|s| s.to_string()).collect()
}

fn entry(regex: RegexInput) -> DbEntry {
    DbEntry {
        regex,
        gen_substrs: false,
        input_size: 5,
        samples_pass: SamplesPass::WithoutSubstrs(strings(&["a"])),
        samples_fail: strings(&["b"]),
        with_bench: false,
        benchmark_str: String::new(),
    }
}

#[test]
fn complete_regex_of_simple_raw_regex() {
    let input = RegexInput::Raw(RawRegex::Simple("a+".to_string()));
    assert_eq!(input.complete_regex(), "a+");
}

#[test]
fn complete_regex_of_raw_regex_with_transitions() {
    let input = RegexInput::Raw(RawRegex::WithTransitions {
        regex: "(a|b)c".to_string(),
        transitions: Some(Transitions { transitions: vec![vec![vec![0, 1]]] }),
    });
    assert_eq!(input.complete_regex(), "(a|b)c");
}

#[test]
fn complete_regex_concatenates_fragments_in_order() {
    let input = RegexInput::Decomposed(vec![
        fragment(false, "From:"),
        fragment(true, "[a-z]+"),
        fragment(false, "@"),
    ]);
    assert_eq!(input.complete_regex(), "From:[a-z]+@");
    // A second call gives the same text.
    assert_eq!(input.complete_regex(), input.complete_regex());
}

#[test]
fn complete_regex_of_no_fragments_is_empty() {
    let input = RegexInput::Decomposed(Vec::new());
    assert_eq!(input.complete_regex(), "");
}

#[test]
fn database_keeps_entries_in_order() {
    let db = RegexDb::new(
        vec![
            entry(RegexInput::Raw(RawRegex::Simple("x".to_string()))),
            entry(RegexInput::Raw(RawRegex::Simple("y".to_string()))),
        ],
        true,
    );
    assert!(db.bench_all);
    let entries = db.into_entries();
    assert_eq!(entries.len(), 2);
    assert_eq!(entries[0].regex.complete_regex(), "x");
    assert_eq!(entries[1].regex.complete_regex(), "y");
}

#[test]
fn components_wrapper_holds_the_fragments() {
    let wrapper = ComponentsWrapper::new(vec![fragment(true, "a"), fragment(false, "b")]);
    assert_eq!(wrapper.parts.len(), 2);
    assert!(wrapper.parts[0].is_public);
    assert_eq!(wrapper.parts[1].regex_def, "b");
}

#[test]
fn input_with_substrings_holds_its_fields() {
    let sample = InputWithSubstrs {
        input: "From:bob@".to_string(),
        expected_substrings: strings(&["bob"]),
    };
    assert_eq!(sample.input, "From:bob@");
    assert_eq!(sample.expected_substrings, vec!["bob".to_string()]);
}
