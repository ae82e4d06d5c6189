//! Masked samples: a record's example sentence with the definition replaced
//! by the abbreviation in brackets, beside its answer set.
use crate::answers::{build_answer_set, is_answer_set_of, AnswerSet, BuildError};
use crate::record::Data;
use crate::text::{
    chars_of, lowercase, occurs_at, replace_all, replace_chars, replace_from, string_of, texts,
    to_lowercase,
};
use rand::rngs::StdRng;
use vstd::prelude::*;

verus! {

/// One example sentence with its definition masked, the candidates to fill
/// the mask with, and the position of the right one.
#[derive(Clone, Debug, PartialEq, Eq)]
pub struct MaskedData {
    pub text: String,
    pub answers: Vec<String>,
    pub correct_answer_idx: usize,
}

/// The abbreviation in square brackets.
pub open spec fn mask_token(abbr: Seq<char>) -> Seq<char> {
    seq!['['] + abbr + seq![']']
}

/// The example sentence in lower case, with every occurrence of the
/// definition in lower case replaced by the mask token.
pub open spec fn masked(text: Seq<char>, definition: Seq<char>, abbr: Seq<char>) -> Seq<char> {
    replace_all(lowercase(text), lowercase(definition), mask_token(abbr))
}

/// `sample` is the record's masked sentence beside an answer set made of the
/// fetched definitions.
pub open spec fn is_sample_of(
    record: Data,
    fetched: Seq<Seq<char>>,
    size: int,
    sample: MaskedData,
) -> bool {
    &&& sample.text@ == masked(record.text@, record.definition@, record.abbr@)
    &&& is_answer_set_of(
        fetched,
        lowercase(record.definition@),
        size,
        AnswerSet { candidates: sample.answers, correct_index: sample.correct_answer_idx },
    )
}

/// From `at` on, a text in which `needle` occurs nowhere is left as it is.
pub proof fn lemma_replace_from_without_occurrence(
    hay: Seq<char>,
    needle: Seq<char>,
    token: Seq<char>,
    at: int,
)
    requires
        0 <= at <= hay.len(),
        forall|i: int| at <= i ==> !occurs_at(hay, needle, i),
    ensures
        replace_from(hay, needle, token, at) == hay.skip(at),
    decreases hay.len() - at,
{
    if at + needle.len() > hay.len() {
    } else if needle.len() == 0 {
        assert(hay.subrange(at, at + needle.len()) =~= needle);
        assert(occurs_at(hay, needle, at));
    } else {
        assert(!occurs_at(hay, needle, at));
        lemma_replace_from_without_occurrence(hay, needle, token, at + 1);
        assert(hay.skip(at) =~= seq![hay[at]] + hay.skip(at + 1));
    }
}

/// Replacing leaves a text as it is where `needle` occurs nowhere in it.
pub proof fn lemma_replace_without_occurrence(hay: Seq<char>, needle: Seq<char>, token: Seq<char>)
    requires
        forall|i: int| !occurs_at(hay, needle, i),
    ensures
        replace_all(hay, needle, token) == hay,
{
    lemma_replace_from_without_occurrence(hay, needle, token, 0);
    assert(hay.skip(0) =~= hay);
}

/// A sentence that does not hold the definition is masked to its own
/// lower-case form.
pub proof fn lemma_masked_without_definition(
    text: Seq<char>,
    definition: Seq<char>,
    abbr: Seq<char>,
)
    requires
        forall|i: int| !occurs_at(lowercase(text), lowercase(definition), i),
    ensures
        masked(text, definition, abbr) == lowercase(text),
{
    lemma_replace_without_occurrence(lowercase(text), lowercase(definition), mask_token(abbr));
}

/// Masks the definition in the record's example sentence.
pub fn mask_text(record: &Data) -> (out: String)
    ensures
        out@ == masked(record.text@, record.definition@, record.abbr@),
{
    let text = to_lowercase(record.text.as_str());
    let definition = to_lowercase(record.definition.as_str());
    let hay = chars_of(text.as_str());
    let needle = chars_of(definition.as_str());
    let abbr = chars_of(record.abbr.as_str());
    let mut token: Vec<char> = Vec::new();
    token.push('[');
    let mut k: usize = 0;
    while k < abbr.len()
        invariant
            k <= abbr.len(),
            token@ == seq!['['] + abbr@.take(k as int),
        decreases abbr.len() - k,
    {
        token.push(abbr[k]);
        k += 1;
    }
    token.push(']');
    assert(token@ =~= mask_token(abbr@));
    let replaced = replace_chars(&hay, &needle, &token);
    let out = string_of(&replaced, 0, replaced.len());
    assert(replaced@.subrange(0, replaced@.len() as int) =~= replaced@);
    out
}

/// Puts a record's masked sentence beside its answer set.
pub fn format_sample(record: &Data, set: AnswerSet) -> (sample: MaskedData)
    ensures
        sample.text@ == masked(record.text@, record.definition@, record.abbr@),
        sample.answers == set.candidates,
        sample.correct_answer_idx == set.correct_index,
{
    MaskedData {
        text: mask_text(record),
        answers: set.candidates,
        correct_answer_idx: set.correct_index,
    }
}

/// Builds the masked sample of a record from the definitions that the
/// dictionary gave for its abbreviation. It fails exactly where these are
/// fewer than `num_answers`.
pub fn build_masked_sample(
    record: &Data,
    fetched: &Vec<String>,
    num_answers: usize,
    rng: &mut StdRng,
) -> (outcome: Result<MaskedData, BuildError>)
    requires
        num_answers >= 1,
    ensures
        outcome is Err <==> fetched.len() < num_answers,
        match outcome {
            Ok(sample) => is_sample_of(*record, texts(fetched@), num_answers as int, sample),
            Err(BuildError::InsufficientAnswers { abbreviation, found }) => {
                &&& abbreviation@ == record.abbr@
                &&& found == fetched.len()
            },
        },
{
    match build_answer_set(record, fetched, num_answers, rng) {
        Ok(set) => Ok(format_sample(record, set)),
        Err(error) => Err(error),
    }
}

} // verus!
