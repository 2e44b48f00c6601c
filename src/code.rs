//! Rendering of the generated circuit source together with one test case.

use vstd::prelude::*;
use vstd::string::*;
use vstd::utf8::{decode_utf8, encode_utf8, encode_utf8_decode_utf8};

use crate::db::{copy_strings, strings_view, DbEntry, InputWithSubstrs};
use crate::literal::{
    byte_literal, decimal, decode_byte_literal, lemma_byte_literal_round_trip, push_byte_literal,
    push_decimal,
};

verus! {

/// The UTF-8 bytes of each string of `v`.
pub open spec fn utf8_strings(v: Seq<Seq<char>>) -> Seq<Seq<u8>> {
    v.map_values(|s: Seq<char>| encode_utf8(s))
}

/// `code` followed by the entry point that runs the matcher on an input of
/// `size` bytes.
pub open spec fn main_text(code: Seq<char>, size: nat) -> Seq<char> {
    code + "\nfn main(input: [u8; "@ + decimal(size) + "]) { regex_match(input); }"@
}

/// What precedes the input literal in a standard test.
pub open spec fn standard_test_head(code: Seq<char>, size: nat, should_fail: bool) -> Seq<char> {
    main_text(code, size) + "\n\n"@ + (if should_fail {
        "#[test(should_fail)]"@
    } else {
        "#[test]"@
    }) + "\nfn test() {\nlet input = "@
}

/// `main_text` followed by a test that runs the matcher on `input`, marked to
/// fail when `should_fail` holds.
pub open spec fn standard_test_text(
    code: Seq<char>,
    size: nat,
    input: Seq<u8>,
    should_fail: bool,
) -> Seq<char> {
    standard_test_head(code, size, should_fail) + byte_literal(input)
        + ";\nregex_match(input);\n}"@
}

/// Assertions on every byte of the `i`-th extracted substring.
pub open spec fn byte_checks(i: nat, sub: Seq<u8>) -> Seq<char>
    decreases sub.len(),
{
    if sub.len() == 0 {
        Seq::empty()
    } else {
        byte_checks(i, sub.drop_last()) + "assert(substr"@ + decimal(i) + ".get("@ + decimal(
            (sub.len() - 1) as nat,
        ) + ") == "@ + decimal(sub.last() as nat) + ");\n"@
    }
}

/// Fetches the `i`-th extracted substring and checks its bytes and length.
pub open spec fn substring_check(i: nat, sub: Seq<u8>) -> Seq<char> {
    "let substr"@ + decimal(i) + " = substrings.get("@ + decimal(i) + ");\n"@ + byte_checks(i, sub)
        + "assert(substr"@ + decimal(i) + ".len() == "@ + decimal(sub.len()) + ");\n"@
}

/// The checks of all expected substrings, in order.
pub open spec fn substring_checks(subs: Seq<Seq<u8>>) -> Seq<char>
    decreases subs.len(),
{
    if subs.len() == 0 {
        Seq::empty()
    } else {
        substring_checks(subs.drop_last()) + substring_check((subs.len() - 1) as nat, subs.last())
    }
}

/// What precedes the input literal in a substring test.
pub open spec fn substring_test_head(code: Seq<char>, size: nat) -> Seq<char> {
    main_text(code, size)
        + "\n\n#[test]\nfn test() {\n// Input for regex match\nlet input = "@
}

/// What follows the input literal in a substring test: the check of the
/// number of captures, then of every expected substring.
pub open spec fn substring_test_tail(input_len: nat, subs: Seq<Seq<u8>>) -> Seq<char> {
    ";\n// This should contain "@ + decimal(subs.len())
        + " substrings\nlet capture_sequences = regex_match(input);\nassert(capture_sequences.len() == "@
        + decimal(subs.len()) + ");\nlet substrings = extract_all_substrings::<_, _, "@ + decimal(
        input_len,
    ) + ">(input, capture_sequences);"@ + substring_checks(subs) + "}\n"@
}

/// `main_text` followed by a test that runs the matcher on `input`, checks the
/// number of captures and then every expected substring.
pub open spec fn substring_test_text(
    code: Seq<char>,
    size: nat,
    input: Seq<u8>,
    subs: Seq<Seq<u8>>,
) -> Seq<char> {
    substring_test_head(code, size) + byte_literal(input) + substring_test_tail(input.len(), subs)
}

/// The input literal embedded in a rendered test reads back as the exact
/// candidate string, whatever characters it holds: both kinds of test embed
/// it between a head and a tail, and the head does not depend on the input.
pub proof fn lemma_embedded_input_round_trip(input: Seq<char>)
    ensures
        decode_utf8(decode_byte_literal(byte_literal(encode_utf8(input)))) == input,
        forall|code: Seq<char>, size: nat, should_fail: bool|
            #[trigger] standard_test_text(code, size, encode_utf8(input), should_fail)
                == standard_test_head(code, size, should_fail) + byte_literal(encode_utf8(input))
                + ";\nregex_match(input);\n}"@,
        forall|code: Seq<char>, size: nat, subs: Seq<Seq<u8>>|
            #[trigger] substring_test_text(code, size, encode_utf8(input), subs)
                == substring_test_head(code, size) + byte_literal(encode_utf8(input))
                + substring_test_tail(encode_utf8(input).len(), subs),
{
    lemma_byte_literal_round_trip(encode_utf8(input));
    encode_utf8_decode_utf8(input);
}

/// The test case that goes with the generated code.
pub enum TestCase {
    /// No test: the entry point alone.
    NoTest,
    /// Runs the matcher on `input`; expected to fail when `should_fail` holds.
    Standard { input: String, should_fail: bool },
    /// Runs the matcher and checks the extracted substrings.
    Substring(InputWithSubstrs),
}

/// A test case, with its strings as character sequences.
pub enum CaseView {
    NoTest,
    Standard { input: Seq<char>, should_fail: bool },
    Substring { input: Seq<char>, expected: Seq<Seq<char>> },
}

impl View for TestCase {
    type V = CaseView;

    open spec fn view(&self) -> CaseView {
        match self {
            TestCase::NoTest => CaseView::NoTest,
            TestCase::Standard { input, should_fail } => CaseView::Standard {
                input: input@,
                should_fail: *should_fail,
            },
            TestCase::Substring(x) => CaseView::Substring {
                input: x.input@,
                expected: strings_view(x.expected_substrings@),
            },
        }
    }
}

impl TestCase {
    /// A copy of the test case.
    pub fn duplicate(&self) -> (r: TestCase)
        ensures
            r@ == self@,
    {
        match self {
            TestCase::NoTest => TestCase::NoTest,
            TestCase::Standard { input, should_fail } => TestCase::Standard {
                input: input.clone(),
                should_fail: *should_fail,
            },
            TestCase::Substring(x) => TestCase::Substring(
                InputWithSubstrs {
                    input: x.input.clone(),
                    expected_substrings: copy_strings(&x.expected_substrings),
                },
            ),
        }
    }
}

/// The full source text for `code`, an input array of `size` bytes and `case`.
pub open spec fn case_text(code: Seq<char>, size: nat, case: CaseView) -> Seq<char> {
    match case {
        CaseView::NoTest => main_text(code, size),
        CaseView::Standard { input, should_fail } => standard_test_text(
            code,
            size,
            encode_utf8(input),
            should_fail,
        ),
        CaseView::Substring { input, expected } => substring_test_text(
            code,
            size,
            encode_utf8(input),
            utf8_strings(expected),
        ),
    }
}

/// Generated circuit source, the input size of its entry point, and the
/// pending test case.
pub struct Code {
    noir_code: String,
    input_size: usize,
    test_case: TestCase,
}

fn push_main(out: &mut String, code: &String, size: usize)
    ensures
        final(out)@ == old(out)@ + main_text(code@, size as nat),
{
    out.append(code.as_str());
    out.append("\nfn main(input: [u8; ");
    push_decimal(out, size);
    out.append("]) { regex_match(input); }");
    assert(final(out)@ =~= old(out)@ + main_text(code@, size as nat));
}

fn push_byte_checks(out: &mut String, i: usize, sub: &[u8])
    ensures
        final(out)@ == old(out)@ + byte_checks(i as nat, sub@),
{
    let ghost start = out@;
    let mut j: usize = 0;
    while j < sub.len()
        invariant
            j <= sub@.len(),
            out@ == start + byte_checks(i as nat, sub@.take(j as int)),
        decreases sub.len() - j,
    {
        out.append("assert(substr");
        push_decimal(out, i);
        out.append(".get(");
        push_decimal(out, j);
        out.append(") == ");
        push_decimal(out, sub[j] as usize);
        out.append(");\n");
        proof {
            let t = sub@.take(j as int + 1);
            assert(t.drop_last() =~= sub@.take(j as int));
            assert(out@ =~= start + byte_checks(i as nat, t));
        }
        j = j + 1;
    }
    assert(sub@.take(sub@.len() as int) =~= sub@);
}

fn push_substring_check(out: &mut String, i: usize, sub: &[u8])
    ensures
        final(out)@ == old(out)@ + substring_check(i as nat, sub@),
{
    out.append("let substr");
    push_decimal(out, i);
    out.append(" = substrings.get(");
    push_decimal(out, i);
    out.append(");\n");
    push_byte_checks(out, i, sub);
    out.append("assert(substr");
    push_decimal(out, i);
    out.append(".len() == ");
    push_decimal(out, sub.len());
    out.append(");\n");
    assert(final(out)@ =~= old(out)@ + substring_check(i as nat, sub@));
}

fn push_substring_checks(out: &mut String, subs: &Vec<String>)
    ensures
        final(out)@ == old(out)@ + substring_checks(utf8_strings(strings_view(subs@))),
{
    let ghost start = out@;
    let ghost all = utf8_strings(strings_view(subs@));
    let mut i: usize = 0;
    while i < subs.len()
        invariant
            i <= subs@.len(),
            all == utf8_strings(strings_view(subs@)),
            out@ == start + substring_checks(all.take(i as int)),
        decreases subs.len() - i,
    {
        let sub = subs[i].as_str().as_bytes();
        assert(sub@ == all[i as int]);
        push_substring_check(out, i, sub);
        proof {
            let t = all.take(i as int + 1);
            assert(t.drop_last() =~= all.take(i as int));
            assert(substring_checks(t) == substring_checks(all.take(i as int)) + substring_check(
                i as nat,
                sub@,
            ));
            assert(out@ =~= start + substring_checks(t));
        }
        i = i + 1;
    }
    assert(all.take(all.len() as int) =~= all);
}

impl Code {
    pub closed spec fn spec_noir_code(&self) -> Seq<char> {
        self.noir_code@
    }

    pub closed spec fn spec_input_size(&self) -> nat {
        self.input_size as nat
    }

    pub closed spec fn spec_test_case(&self) -> TestCase {
        self.test_case
    }

    /// The source text with the pending test case.
    pub open spec fn spec_text(&self) -> Seq<char> {
        case_text(self.spec_noir_code(), self.spec_input_size(), self.spec_test_case()@)
    }

    /// Takes the source produced by the code generator for `regex_input`;
    /// the entry point reads an input of the entry's size. No test is pending.
    pub fn new(regex_input: &DbEntry, noir_code: String) -> (r: Self)
        ensures
            r.spec_noir_code() == noir_code@,
            r.spec_input_size() == regex_input.input_size,
            r.spec_test_case() == TestCase::NoTest,
    {
        Self { noir_code, input_size: regex_input.input_size, test_case: TestCase::NoTest }
    }

    /// The pending test case.
    pub fn test_case(&self) -> (r: &TestCase)
        ensures
            *r == self.spec_test_case(),
    {
        &self.test_case
    }

    /// Replaces the pending test case.
    pub fn set_test_case(&mut self, test_case: TestCase)
        ensures
            final(self).spec_noir_code() == old(self).spec_noir_code(),
            final(self).spec_input_size() == old(self).spec_input_size(),
            final(self).spec_test_case() == test_case,
    {
        self.test_case = test_case;
    }

    /// Renders the source with at most one test. A substring test takes
    /// precedence; a standard test is rendered for `standard_test` alone.
    pub fn print_code(
        &self,
        standard_test: Option<&String>,
        gen_substr_test: Option<&InputWithSubstrs>,
        should_fail: bool,
    ) -> (s: String)
        ensures
            s@ == match gen_substr_test {
                Some(x) => substring_test_text(
                    self.spec_noir_code(),
                    self.spec_input_size(),
                    encode_utf8(x.input@),
                    utf8_strings(strings_view(x.expected_substrings@)),
                ),
                None => match standard_test {
                    Some(t) => standard_test_text(
                        self.spec_noir_code(),
                        self.spec_input_size(),
                        encode_utf8(t@),
                        should_fail,
                    ),
                    None => main_text(self.spec_noir_code(), self.spec_input_size()),
                },
            },
    {
        let mut s = String::new();
        push_main(&mut s, &self.noir_code, self.input_size);
        match gen_substr_test {
            Some(x) => {
                let input = x.input.as_str().as_bytes();
                s.append("\n\n#[test]\nfn test() {\n// Input for regex match\nlet input = ");
                push_byte_literal(&mut s, input);
                s.append(";\n// This should contain ");
                push_decimal(&mut s, x.expected_substrings.len());
                s.append(
                    " substrings\nlet capture_sequences = regex_match(input);\nassert(capture_sequences.len() == ",
                );
                push_decimal(&mut s, x.expected_substrings.len());
                s.append(");\nlet substrings = extract_all_substrings::<_, _, ");
                push_decimal(&mut s, input.len());
                s.append(">(input, capture_sequences);");
                push_substring_checks(&mut s, &x.expected_substrings);
                s.append("}\n");
            },
            None => match standard_test {
                Some(t) => {
                    s.append("\n\n");
                    if should_fail {
                        s.append("#[test(should_fail)]");
                    } else {
                        s.append("#[test]");
                    }
                    s.append("\nfn test() {\nlet input = ");
                    push_byte_literal(&mut s, t.as_str().as_bytes());
                    s.append(";\nregex_match(input);\n}");
                },
                None => {},
            },
        }
        s
    }

    /// Renders the source with the pending test case.
    pub fn render(&self) -> (s: String)
        ensures
            s@ == self.spec_text(),
    {
        match &self.test_case {
            TestCase::NoTest => self.print_code(None, None, false),
            TestCase::Standard { input, should_fail } => self.print_code(
                Some(input),
                None,
                *should_fail,
            ),
            TestCase::Substring(x) => self.print_code(None, Some(x), false),
        }
    }
}

} // verus!
