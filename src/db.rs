//! Typed model of the regex test database.

use vstd::prelude::*;
use vstd::string::*;

verus! {

/// One labelled piece of a decomposed regex.
#[derive(Clone)]
pub struct RegexFragment {
    /// Whether the text matched by this fragment is reported as a substring.
    pub is_public: bool,
    /// The regex source of the fragment.
    pub regex_def: String,
}

/// The regex under test: given whole, or as an ordered list of fragments.
pub enum RegexInput {
    /// A raw regex with optional transitions.
    Raw(RawRegex),
    /// A regex given as the concatenation of its fragments.
    Decomposed(Vec<RegexFragment>),
}

/// Transition table that marks where substrings of a raw regex are extracted.
pub struct Transitions {
    pub transitions: Vec<Vec<Vec<u32>>>,
}

/// A raw regex, either as a bare string or together with its transitions.
pub enum RawRegex {
    Simple(String),
    WithTransitions { regex: String, transitions: Option<Transitions> },
}

/// Concatenation of the sources of `frags`, in order.
pub open spec fn concat_defs(frags: Seq<RegexFragment>) -> Seq<char>
    decreases frags.len(),
{
    if frags.len() == 0 {
        Seq::empty()
    } else {
        concat_defs(frags.drop_last()) + frags.last().regex_def@
    }
}

impl RawRegex {
    pub open spec fn spec_regex(&self) -> Seq<char> {
        match self {
            RawRegex::Simple(s) => s@,
            RawRegex::WithTransitions { regex, .. } => regex@,
        }
    }

    pub(crate) fn get_regex(&self) -> (r: String)
        ensures
            r@ == self.spec_regex(),
    {
        match self {
            RawRegex::Simple(s) => s.clone(),
            RawRegex::WithTransitions { regex, .. } => regex.clone(),
        }
    }
}

impl RegexInput {
    /// The whole regex: the raw string, or the fragments joined in order.
    pub open spec fn spec_complete_regex(&self) -> Seq<char> {
        match self {
            RegexInput::Raw(raw) => raw.spec_regex(),
            RegexInput::Decomposed(frags) => concat_defs(frags@),
        }
    }

    /// Returns the whole regex of the input. For a raw regex this is its
    /// string; for a decomposed one, the concatenation of its fragments.
    pub fn complete_regex(&self) -> (r: String)
        ensures
            r@ == self.spec_complete_regex(),
    {
        match self {
            RegexInput::Raw(raw) => raw.get_regex(),
            RegexInput::Decomposed(frags) => {
                let mut out = String::new();
                let mut i: usize = 0;
                while i < frags.len()
                    invariant
                        i <= frags.len(),
                        out@ == concat_defs(frags@.take(i as int)),
                    decreases frags.len() - i,
                {
                    assert(frags@.take(i as int + 1).drop_last() =~= frags@.take(i as int));
                    out.append(frags[i].regex_def.as_str());
                    i = i + 1;
                }
                assert(frags@.take(frags.len() as int) =~= frags@);
                out
            }
        }
    }
}

/// Samples expected to match: with the substrings to extract, or bare.
pub enum SamplesPass {
    WithSubstrs(Vec<InputWithSubstrs>),
    WithoutSubstrs(Vec<String>),
}

/// An input together with the substrings that its match must extract, in order.
pub struct InputWithSubstrs {
    pub input: String,
    pub expected_substrings: Vec<String>,
}

/// An entry of the test database.
pub struct DbEntry {
    /// The regex of the entry.
    pub regex: RegexInput,
    /// Whether substrings are extracted and checked.
    pub gen_substrs: bool,
    /// Size of the input array of the generated circuit; also bounds the
    /// repetitions of randomly generated samples.
    pub input_size: usize,
    /// Samples given by the user that must match.
    pub samples_pass: SamplesPass,
    /// Samples given by the user that must not match.
    pub samples_fail: Vec<String>,
    /// Whether the entry is benchmarked.
    pub with_bench: bool,
    /// Input used for benchmarking.
    pub benchmark_str: String,
}

/// The database of regexes under test.
pub struct RegexDb {
    db_entries: Vec<DbEntry>,
    /// Whether every entry is benchmarked.
    pub bench_all: bool,
}

impl RegexDb {
    /// Builds a database from its entries, kept in the given order.
    pub fn new(db_entries: Vec<DbEntry>, bench_all: bool) -> (r: Self)
        ensures
            r.spec_entries() == db_entries@,
            r.spec_bench_all() == bench_all,
    {
        RegexDb { db_entries, bench_all }
    }

    pub closed spec fn spec_entries(&self) -> Seq<DbEntry> {
        self.db_entries@
    }

    pub closed spec fn spec_bench_all(&self) -> bool {
        self.bench_all
    }

    /// Hands out the entries, in database order.
    pub fn into_entries(self) -> (r: Vec<DbEntry>)
        ensures
            r@ == self.spec_entries(),
    {
        self.db_entries
    }
}

/// The fragments of a decomposed regex, as handed to the code generator.
pub struct ComponentsWrapper {
    pub parts: Vec<RegexFragment>,
}

impl ComponentsWrapper {
    /// Wraps the fragments of a decomposed regex.
    pub fn new(fragments: Vec<RegexFragment>) -> (r: Self)
        ensures
            r.parts == fragments,
    {
        Self { parts: fragments }
    }
}

/// The views of a list of strings.
pub open spec fn strings_view(v: Seq<String>) -> Seq<Seq<char>> {
    v.map_values(|s: String| s@)
}

/// A copy of a list of strings.
pub fn copy_strings(v: &Vec<String>) -> (r: Vec<String>)
    ensures
        r@ == v@,
{
    let r = v.clone();
    assert(r@ =~= v@);
    r
}

} // verus!
