//! Random samples of a regex language, drawn whole or fragment by fragment.

use vstd::prelude::*;
use vstd::string::*;

use crate::db::{strings_view, InputWithSubstrs, RegexFragment};
use crate::oracle::{regex_compiles, regex_finds};
use crate::repetition::{sampler_safe, sampler_safe_check};

verus! {

/// Number of random samples drawn for each regex.
pub const DEFAULT_SAMPLE_NUMBER: usize = 10;

#[verifier::external_type_specification]
#[verifier::external_body]
pub struct ExSampler(rand_regex::Regex);

#[verifier::external_type_specification]
#[verifier::external_body]
pub struct ExThreadRng(rand::rngs::ThreadRng);

/// Whether `rand_regex` builds a sampler for `pattern` with at most
/// `max_repeat` extra repetitions per unbounded repeat.
pub uninterp spec fn sampler_compiles(pattern: Seq<char>, max_repeat: u32) -> bool;

/// Relies on `rand_regex::Regex::compile`: whether it succeeds depends on the
/// pattern and the bound alone (it refuses invalid syntax, anchors and word
/// boundaries); its error is dropped here. It does not panic on a pattern that
/// passes `sampler_safe`: the products of nested repetition bounds and the
/// output capacity then stay within `u32`, and no class is empty.
#[verifier::external_body]
fn compile_sampler(pattern: &str, max_repeat: u32) -> (r: Option<rand_regex::Regex>)
    requires
        sampler_safe(pattern@, max_repeat),
    ensures
        r is Some <==> sampler_compiles(pattern@, max_repeat),
{
    rand_regex::Regex::compile(pattern, max_repeat).ok()
}

/// Whether a sampler is built for `pattern` with `max_repeat`: the pattern
/// passes the overflow check and `rand_regex` compiles it.
pub open spec fn sampler_available(pattern: Seq<char>, max_repeat: u32) -> bool {
    sampler_safe(pattern, max_repeat) && sampler_compiles(pattern, max_repeat)
}

/// A random-string sampler, with the pattern and bound it was built from.
pub struct Sampler {
    inner: rand_regex::Regex,
    pattern: Ghost<Seq<char>>,
    max_repeat: Ghost<u32>,
}

impl Sampler {
    pub closed spec fn spec_pattern(&self) -> Seq<char> {
        self.pattern@
    }

    pub closed spec fn spec_max_repeat(&self) -> u32 {
        self.max_repeat@
    }

    /// The sampler was built from a pattern that passed the overflow check.
    pub closed spec fn wf(&self) -> bool {
        sampler_safe(self.pattern@, self.max_repeat@)
    }

    /// A sampler for `pattern` with at most `max_repeat` extra repetitions
    /// per unbounded repeat; `None` where no sampler is available.
    pub fn compile(pattern: &str, max_repeat: u32) -> (r: Option<Sampler>)
        ensures
            r is Some <==> sampler_available(pattern@, max_repeat),
            r matches Some(s) ==> s.wf() && s.spec_pattern() == pattern@ && s.spec_max_repeat()
                == max_repeat,
    {
        if !sampler_safe_check(pattern, max_repeat) {
            return None;
        }
        match compile_sampler(pattern, max_repeat) {
            Some(inner) => Some(
                Sampler { inner, pattern: Ghost(pattern@), max_repeat: Ghost(max_repeat) },
            ),
            None => None,
        }
    }
}

/// Relies on `rand::thread_rng`: a handle to the thread-local generator.
#[verifier::external_body]
fn thread_rng() -> rand::rngs::ThreadRng {
    rand::thread_rng()
}

/// Relies on `rand_regex`'s `Distribution<Result<String, FromUtf8Error>>`:
/// one random string satisfying the sampler's regex, or `None` where the
/// drawn bytes are not UTF-8. The `regex` crate parses the same syntax with
/// the same defaults, so it finds a match in the string wherever it compiles
/// the pattern. A sampler built from a pattern that passed `sampler_safe`
/// keeps the per-draw products of repetition counts within `u32`.
#[verifier::external_body]
fn draw(sampler: &Sampler, rng: &mut rand::rngs::ThreadRng) -> (r: Option<String>)
    requires
        sampler.wf(),
    ensures
        r matches Some(s) ==> (regex_compiles(sampler.spec_pattern()) ==> regex_finds(
            sampler.spec_pattern(),
            s@,
        )),
{
    rand::distributions::Distribution::<Result<String, std::string::FromUtf8Error>>::sample(
        &sampler.inner,
        rng,
    ).ok()
}

/// Whether `s` can be a draw of a sampler for `pattern`: empty, or matched by
/// the reference engine wherever it compiles the pattern.
pub open spec fn drawn_text(pattern: Seq<char>, s: Seq<char>) -> bool {
    s.len() == 0 || (regex_compiles(pattern) ==> regex_finds(pattern, s))
}

/// A random draw of `sampler`; the empty string stands in for a draw that is
/// not text.
fn draw_text(sampler: &Sampler, rng: &mut rand::rngs::ThreadRng) -> (r: String)
    requires
        sampler.wf(),
    ensures
        drawn_text(sampler.spec_pattern(), r@),
{
    match draw(sampler, rng) {
        Some(s) => s,
        None => String::new(),
    }
}

/// The repetition bound handed to the sampler for an input size: the size
/// itself, saturated to `u32`.
pub open spec fn repeat_bound(input_size: usize) -> u32 {
    if input_size > u32::MAX {
        u32::MAX
    } else {
        input_size as u32
    }
}

pub fn repeat_bound_of(input_size: usize) -> (r: u32)
    ensures
        r == repeat_bound(input_size),
{
    if input_size > u32::MAX as usize {
        u32::MAX
    } else {
        input_size as u32
    }
}

/// Draws samples of the whole `pattern` for an input of `input_size` bytes: a
/// fixed number of them, or none where no sampler is available for it.
pub fn draw_whole_samples(pattern: &str, input_size: usize) -> (r: Vec<String>)
    ensures
        r.len() == if sampler_available(pattern@, repeat_bound(input_size)) {
            DEFAULT_SAMPLE_NUMBER as nat
        } else {
            0
        },
        forall|k: int| 0 <= k < r.len() ==> drawn_text(pattern@, #[trigger] r@[k]@),
{
    let max_repeat = repeat_bound_of(input_size);
    let mut samples: Vec<String> = Vec::new();
    match Sampler::compile(pattern, max_repeat) {
        Some(sampler) => {
            let mut rng = thread_rng();
            let mut k: usize = 0;
            while k < DEFAULT_SAMPLE_NUMBER
                invariant
                    k <= DEFAULT_SAMPLE_NUMBER,
                    samples.len() == k,
                    sampler.wf(),
                    sampler.spec_pattern() == pattern@,
                    forall|m: int| 0 <= m < samples.len() ==> drawn_text(pattern@, #[trigger] samples@[m]@),
                decreases DEFAULT_SAMPLE_NUMBER - k,
            {
                samples.push(draw_text(&sampler, &mut rng));
                k = k + 1;
            }
        },
        None => {},
    }
    samples
}

/// The concatenation of `samples`, in order.
pub open spec fn concat_all(samples: Seq<Seq<char>>) -> Seq<char>
    decreases samples.len(),
{
    if samples.len() == 0 {
        Seq::empty()
    } else {
        concat_all(samples.drop_last()) + samples.last()
    }
}

/// The samples of the public fragments, in fragment order.
pub open spec fn public_samples(frags: Seq<RegexFragment>, samples: Seq<Seq<char>>) -> Seq<
    Seq<char>,
>
    decreases frags.len(),
{
    if frags.len() == 0 || samples.len() == 0 {
        Seq::empty()
    } else if frags.last().is_public {
        public_samples(frags.drop_last(), samples.drop_last()).push(samples.last())
    } else {
        public_samples(frags.drop_last(), samples.drop_last())
    }
}

/// The positions of the public fragments, in increasing order.
pub open spec fn public_positions(frags: Seq<RegexFragment>) -> Seq<int>
    decreases frags.len(),
{
    if frags.len() == 0 {
        Seq::empty()
    } else if frags.last().is_public {
        public_positions(frags.drop_last()).push(frags.len() - 1)
    } else {
        public_positions(frags.drop_last())
    }
}

/// In a fragment-mode draw there are as many expected substrings as public
/// fragments, and the `i`-th of them is the sample of the `i`-th public
/// fragment in fragment order.
pub proof fn lemma_substring_order(frags: Seq<RegexFragment>, samples: Seq<Seq<char>>)
    requires
        samples.len() == frags.len(),
    ensures
        public_samples(frags, samples).len() == frags.filter(|f: RegexFragment| f.is_public).len(),
        public_positions(frags).len() == public_samples(frags, samples).len(),
        forall|i: int|
            0 <= i < public_positions(frags).len() ==> {
                let p = #[trigger] public_positions(frags)[i];
                &&& 0 <= p < frags.len()
                &&& frags[p].is_public
                &&& public_samples(frags, samples)[i] == samples[p]
            },
        forall|i: int, j: int|
            0 <= i < j < public_positions(frags).len() ==> public_positions(frags)[i]
                < public_positions(frags)[j],
        forall|j: int|
            0 <= j < frags.len() && (#[trigger] frags[j]).is_public ==> exists|i: int|
                0 <= i < public_positions(frags).len() && public_positions(frags)[i] == j,
    decreases frags.len(),
{
    if frags.len() > 0 {
        let fl = frags.drop_last();
        let sl = samples.drop_last();
        lemma_substring_order(fl, sl);
        let pred = |f: RegexFragment| f.is_public;
        reveal(Seq::filter);
        assert(frags.drop_last() == fl);
        assert(frags.filter(pred).len() == if frags.last().is_public {
            fl.filter(pred).len() + 1
        } else {
            fl.filter(pred).len()
        });
        let pp = public_positions(frags);
        let pl = public_positions(fl);
        assert forall|j: int| 0 <= j < frags.len() && (#[trigger] frags[j]).is_public implies exists|
            i: int,
        | 0 <= i < pp.len() && pp[i] == j by {
            if j < frags.len() - 1 {
                assert(fl[j] == frags[j]);
                let i = choose|i: int| 0 <= i < pl.len() && pl[i] == j;
                assert(pp[i] == j);
            } else {
                assert(pp[pp.len() - 1] == j);
            }
        }
    }
}

/// Builds the candidate of one fragment-mode draw: `samples[i]` is the draw
/// of fragment `i`. The input is their concatenation and the expected
/// substrings are the draws of the public fragments, in order.
pub fn assemble_draw(fragments: &Vec<RegexFragment>, samples: &Vec<String>) -> (r:
    InputWithSubstrs)
    requires
        samples.len() == fragments.len(),
    ensures
        r.input@ == concat_all(strings_view(samples@)),
        strings_view(r.expected_substrings@) == public_samples(fragments@, strings_view(samples@)),
{
    let ghost sv = strings_view(samples@);
    let mut input = String::new();
    let mut expected: Vec<String> = Vec::new();
    let mut i: usize = 0;
    while i < fragments.len()
        invariant
            i <= fragments.len(),
            samples.len() == fragments.len(),
            sv == strings_view(samples@),
            input@ == concat_all(sv.take(i as int)),
            strings_view(expected@) == public_samples(
                fragments@.take(i as int),
                sv.take(i as int),
            ),
        decreases fragments.len() - i,
    {
        let ghost before = expected@;
        if fragments[i].is_public {
            expected.push(samples[i].clone());
        }
        input.append(samples[i].as_str());
        proof {
            let ft = fragments@.take(i as int + 1);
            let st = sv.take(i as int + 1);
            assert(ft.drop_last() =~= fragments@.take(i as int));
            assert(st.drop_last() =~= sv.take(i as int));
            assert(st.last() == samples@[i as int]@);
            if fragments@[i as int].is_public {
                assert(expected@ == before.push(samples@[i as int]));
                assert(strings_view(expected@) =~= strings_view(before).push(st.last()));
            } else {
                assert(expected@ == before);
            }
        }
        i = i + 1;
    }
    assert(fragments@.take(fragments.len() as int) =~= fragments@);
    assert(sv.take(sv.len() as int) =~= sv);
    InputWithSubstrs { input, expected_substrings: expected }
}

/// Whether `samples` can be one fragment-mode draw: one sample per fragment,
/// each a draw of that fragment, and the empty string for a fragment without
/// a sampler.
pub open spec fn is_fragment_draw(
    frags: Seq<RegexFragment>,
    max_repeat: u32,
    samples: Seq<Seq<char>>,
) -> bool {
    &&& samples.len() == frags.len()
    &&& forall|j: int|
        0 <= j < frags.len() ==> {
            &&& drawn_text(#[trigger] frags[j].regex_def@, samples[j])
            &&& !sampler_available(frags[j].regex_def@, max_repeat) ==> samples[j].len() == 0
        }
}

/// Whether `input` with `expected` substrings is the candidate of some
/// fragment-mode draw.
pub open spec fn drawn_from_fragments(
    frags: Seq<RegexFragment>,
    max_repeat: u32,
    input: Seq<char>,
    expected: Seq<Seq<char>>,
) -> bool {
    exists|samples: Seq<Seq<char>>|
        #[trigger] is_fragment_draw(frags, max_repeat, samples) && input == concat_all(samples)
            && expected == public_samples(frags, samples)
}

/// Draws a fixed number of candidates fragment by fragment, for an input of
/// `input_size` bytes. In each draw every fragment is sampled in order; a
/// fragment without a sampler contributes the empty string.
pub fn draw_fragment_samples(fragments: &Vec<RegexFragment>, input_size: usize) -> (r: Vec<
    InputWithSubstrs,
>)
    ensures
        r.len() == DEFAULT_SAMPLE_NUMBER,
        forall|k: int|
            0 <= k < r.len() ==> drawn_from_fragments(
                fragments@,
                repeat_bound(input_size),
                #[trigger] r@[k].input@,
                strings_view(r@[k].expected_substrings@),
            ),
{
    let max_repeat = repeat_bound_of(input_size);
    let mut rng = thread_rng();
    let mut draws: Vec<InputWithSubstrs> = Vec::new();
    let mut k: usize = 0;
    while k < DEFAULT_SAMPLE_NUMBER
        invariant
            k <= DEFAULT_SAMPLE_NUMBER,
            max_repeat == repeat_bound(input_size),
            draws.len() == k,
            forall|m: int|
                0 <= m < draws.len() ==> drawn_from_fragments(
                    fragments@,
                    max_repeat,
                    #[trigger] draws@[m].input@,
                    strings_view(draws@[m].expected_substrings@),
                ),
        decreases DEFAULT_SAMPLE_NUMBER - k,
    {
        let mut samples: Vec<String> = Vec::new();
        let mut j: usize = 0;
        while j < fragments.len()
            invariant
                j <= fragments.len(),
                max_repeat == repeat_bound(input_size),
                samples.len() == j,
                forall|i: int|
                    0 <= i < j ==> {
                        &&& drawn_text(#[trigger] fragments@[i].regex_def@, samples@[i]@)
                        &&& !sampler_available(fragments@[i].regex_def@, max_repeat)
                            ==> samples@[i]@.len() == 0
                    },
            decreases fragments.len() - j,
        {
            let sample = match Sampler::compile(fragments[j].regex_def.as_str(), max_repeat) {
                Some(sampler) => draw_text(&sampler, &mut rng),
                None => String::new(),
            };
            samples.push(sample);
            j = j + 1;
        }
        let draw = assemble_draw(fragments, &samples);
        proof {
            let sv = strings_view(samples@);
            assert(is_fragment_draw(fragments@, max_repeat, sv));
        }
        draws.push(draw);
        k = k + 1;
    }
    draws
}

} // verus!
