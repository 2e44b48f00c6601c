use test_suite::code::{Code, TestCase};
use test_suite::db::{DbEntry, InputWithSubstrs, RawRegex, RegexInput, SamplesPass};

fn entry_with_size(input_size: usize) -> DbEntry {
    DbEntry {
        regex: RegexInput::Raw(RawRegex::Simple("a+".to_string())),
        gen_substrs: false,
        input_size,
        samples_pass: SamplesPass::WithoutSubstrs(Vec::new()),
        samples_fail: Vec::new(),
        with_bench: false,
        benchmark_str: String::new(),
    }
}

/// Reads the first `[..]` byte-array literal after `marker` back into bytes.
fn read_literal_after(text: &str, marker: &str) -> Vec<u8> {
    let start = text.find(marker).expect("marker present") + marker.len();
    let rest = &text[start..];
    assert!(rest.starts_with('['));
    let end = rest.find(']').expect("closing bracket");
    let inner = &rest[1..end];
    if inner.is_empty() {
        return Vec::new();
    }
    inner.split(", ").map(|n| n.parse::<u8>().expect("decimal byte")).collect()
}

#[test]
fn renders_code_without_test() {
    let code = Code::new(&entry_with_size(5), "CODE".to_string());
    assert_eq!(
        code.print_code(None, None, false),
        "CODE\nfn main(input: [u8; 5]) { regex_match(input); }"
    );
    assert_eq!(code.render(), code.print_code(None, None, false));
    assert!(matches!(code.test_case(), TestCase::NoTest));
}

#[test]
fn renders_standard_test_expected_to_pass() {
    let code = Code::new(&entry_with_size(5), "CODE".to_string());
    let input = "ab".to_string();
    assert_eq!(
        code.print_code(Some(&input), None, false),
        "CODE\nfn main(input: [u8; 5]) { regex_match(input); }\n\n#[test]\nfn test() {\nlet input = [97, 98];\nregex_match(input);\n}"
    );
}

#[test]
fn renders_standard_test_expected_to_fail() {
    let code = Code::new(&entry_with_size(12), "CODE".to_string());
    let input = "\"\\".to_string();
    assert_eq!(
        code.print_code(Some(&input), None, true),
        "CODE\nfn main(input: [u8; 12]) { regex_match(input); }\n\n#[test(should_fail)]\nfn test() {\nlet input = [34, 92];\nregex_match(input);\n}"
    );
}

#[test]
fn renders_empty_input_as_empty_array() {
    let code = Code::new(&entry_with_size(0), String::new());
    let input = String::new();
    assert_eq!(
        code.print_code(Some(&input), None, false),
        "\nfn main(input: [u8; 0]) { regex_match(input); }\n\n#[test]\nfn test() {\nlet input = [];\nregex_match(input);\n}"
    );
}

#[test]
fn renders_substring_test() {
    let code = Code::new(&entry_with_size(9), "CODE".to_string());
    let sample = InputWithSubstrs {
        input: "ab".to_string(),
        expected_substrings: vec!["b".to_string()],
    };
    let expected = "CODE\nfn main(input: [u8; 9]) { regex_match(input); }\n\n#[test]\nfn test() {\n\
// Input for regex match\n\
let input = [97, 98];\n\
// This should contain 1 substrings\n\
let capture_sequences = regex_match(input);\n\
assert(capture_sequences.len() == 1);\n\
let substrings = extract_all_substrings::<_, _, 2>(input, capture_sequences);\
let substr0 = substrings.get(0);\n\
assert(substr0.get(0) == 98);\n\
assert(substr0.len() == 1);\n\
}\n";
    assert_eq!(code.print_code(None, Some(&sample), false), expected);
    // A substring test takes precedence over a standard one.
    let other = "zz".to_string();
    assert_eq!(code.print_code(Some(&other), Some(&sample), true), expected);
}

#[test]
fn renders_every_expected_substring_in_order() {
    let code = Code::new(&entry_with_size(20), "C".to_string());
    let sample = InputWithSubstrs {
        input: "xy10z".to_string(),
        expected_substrings: vec!["xy".to_string(), String::new(), "10".to_string()],
    };
    let text = code.print_code(None, Some(&sample), false);
    assert!(text.contains("// This should contain 3 substrings\n"));
    assert!(text.contains("assert(capture_sequences.len() == 3);\n"));
    assert!(text.contains("extract_all_substrings::<_, _, 5>(input, capture_sequences);"));
    let checks = "let substr0 = substrings.get(0);\n\
assert(substr0.get(0) == 120);\n\
assert(substr0.get(1) == 121);\n\
assert(substr0.len() == 2);\n\
let substr1 = substrings.get(1);\n\
assert(substr1.len() == 0);\n\
let substr2 = substrings.get(2);\n\
assert(substr2.get(0) == 49);\n\
assert(substr2.get(1) == 48);\n\
assert(substr2.len() == 2);\n\
}\n";
    assert!(text.ends_with(checks));
}

#[test]
fn renders_large_numbers_in_decimal() {
    let code = Code::new(&entry_with_size(1234567), "C".to_string());
    let text = code.print_code(None, None, false);
    assert_eq!(text, "C\nfn main(input: [u8; 1234567]) { regex_match(input); }");
    let input = "\u{ff}".to_string();
    let text = code.print_code(Some(&input), None, false);
    assert!(text.contains("let input = [195, 191];"));
}

#[test]
fn embedded_literal_reads_back_as_the_candidate() {
    let code = Code::new(&entry_with_size(64), "C".to_string());
    let candidates = [
        "plain",
        "quote \" and backslash \\",
        "control \u{0}\u{1}\t\n\r",
        "non-ascii é 漢 🦀",
        "]; assert(false); [",
        "",
    ];
    for candidate in candidates {
        let text = code.print_code(Some(&candidate.to_string()), None, false);
        let bytes = read_literal_after(&text, "let input = ");
        assert_eq!(String::from_utf8(bytes).unwrap(), candidate);

        let sample = InputWithSubstrs {
            input: candidate.to_string(),
            expected_substrings: Vec::new(),
        };
        let text = code.print_code(None, Some(&sample), false);
        let bytes = read_literal_after(&text, "let input = ");
        assert_eq!(String::from_utf8(bytes).unwrap(), candidate);
    }
}

#[test]
fn pending_test_case_is_rendered_and_replaced() {
    let mut code = Code::new(&entry_with_size(3), "C".to_string());
    code.set_test_case(TestCase::Standard { input: "a".to_string(), should_fail: true });
    let input = "a".to_string();
    assert_eq!(code.render(), code.print_code(Some(&input), None, true));

    let sample = InputWithSubstrs { input: "a".to_string(), expected_substrings: vec!["a".to_string()] };
    code.set_test_case(TestCase::Substring(InputWithSubstrs {
        input: "a".to_string(),
        expected_substrings: vec!["a".to_string()],
    }));
    assert_eq!(code.render(), code.print_code(None, Some(&sample), false));

    let copy = code.test_case().duplicate();
    match copy {
        TestCase::Substring(x) => {
            assert_eq!(x.input, "a");
            assert_eq!(x.expected_substrings, vec!["a".to_string()]);
        }
        _ => panic!("expected a substring test case"),
    }
}

#[test]
fn oversized_input_is_embedded_without_truncation() {
    // An input longer than the declared input size is still embedded whole.
    let code = Code::new(&entry_with_size(2), "C".to_string());
    let input = "aaa".to_string();
    let text = code.print_code(Some(&input), None, false);
    assert!(text.contains("fn main(input: [u8; 2])"));
    assert!(text.contains("let input = [97, 97, 97];"));
}
