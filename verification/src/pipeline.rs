//! What becomes of one work item: the steps between the fetches, each from
//! what came back to a result or to the cause of the failure.
use crate::answers::BuildError;
use crate::batch::Failure;
use crate::category::Category;
use crate::dedup::{claim, DedupTracker};
use crate::markup::{nested_last_texts, selected_texts};
use crate::masking::{build_masked_sample, is_sample_of, MaskedData};
use crate::record::{is_parse_of, parse, Data, ParseError, EXAMPLE_SELECTOR, TITLE_SELECTOR};
use crate::search::{
    all_present, candidates_in, present_texts, search_address, search_url, RESULT_CELL_SELECTOR,
    RESULT_TABLE_SELECTOR,
};
use crate::text::texts;
use rand::rngs::StdRng;
use vstd::prelude::*;

verus! {

/// `outcome` is what an entry page gives, or a page that did not come: the
/// record of the page, or the cause of the failure.
pub open spec fn is_record_outcome(page: Option<Seq<char>>, outcome: Result<Data, Failure>) -> bool {
    match page {
        None => outcome == Err::<Data, Failure>(Failure::Transport),
        Some(document) => {
            let titles = selected_texts(document, TITLE_SELECTOR@);
            let examples = selected_texts(document, EXAMPLE_SELECTOR@);
            match outcome {
                Ok(record) => is_parse_of(titles, examples, Ok(record)),
                Err(failure) => {
                    &&& failure == Failure::MalformedDocument
                    &&& is_parse_of(titles, examples, Err(ParseError::MalformedDocument))
                },
            }
        },
    }
}

/// `outcome` is what the definitions found for a record's abbreviation give,
/// or the failure to find them: a masked sample where they are at least
/// `size` many, the failure `InsufficientAnswers` with the abbreviation and
/// their number where they are fewer, and the failure of the lookup as it
/// is.
pub open spec fn is_sample_outcome(
    record: Data,
    lookup: Result<Seq<Seq<char>>, Failure>,
    size: int,
    outcome: Result<MaskedData, Failure>,
) -> bool {
    match lookup {
        Err(failure) => outcome == Err::<MaskedData, Failure>(failure),
        Ok(fetched) => if fetched.len() < size {
            match outcome {
                Err(Failure::InsufficientAnswers { abbreviation, found }) => {
                    &&& abbreviation@ == record.abbr@
                    &&& found == fetched.len()
                },
                _ => false,
            }
        } else {
            match outcome {
                Ok(sample) => is_sample_of(record, fetched, size, sample),
                Err(_) => false,
            }
        },
    }
}

/// What a result page gives for a lookup, or a page that did not come: the
/// definitions of the page, or the cause of the failure.
pub open spec fn lookup_of(page: Option<Seq<char>>) -> Result<Seq<Seq<char>>, Failure> {
    match page {
        None => Err(Failure::Transport),
        Some(document) => {
            let cells = nested_last_texts(document, RESULT_TABLE_SELECTOR@, RESULT_CELL_SELECTOR@);
            if cells is Some && all_present(cells->0) {
                Ok(present_texts(cells->0))
            } else {
                Err(Failure::MalformedDocument)
            }
        },
    }
}

/// The first step of a record in masked mode: claims its abbreviation. Where
/// the claim is granted the result is the address to ask for the
/// definitions; where it is not, the record is a duplicate.
pub fn claim_record(tracker: &mut DedupTracker, record: &Data) -> (next: Result<String, Failure>)
    ensures
        (final(tracker)@, next is Ok) == claim(old(tracker)@, record.abbr@),
        match next {
            Ok(url) => url@ == search_address(record.abbr@, Category::All),
            Err(failure) => failure == Failure::Duplicate,
        },
{
    if tracker.try_claim(record.abbr.as_str()) {
        Ok(search_url(record.abbr.as_str(), Category::All))
    } else {
        Err(Failure::Duplicate)
    }
}

/// The step behind the fetch of an entry page: `page` is the document, or
/// `None` where the fetch failed.
pub fn record_from_page(page: Option<&str>) -> (outcome: Result<Data, Failure>)
    ensures
        is_record_outcome(
            match page {
                Some(document) => Some(document@),
                None => None,
            },
            outcome,
        ),
{
    match page {
        None => Err(Failure::Transport),
        Some(document) => match parse(document) {
            Ok(record) => Ok(record),
            Err(_) => Err(Failure::MalformedDocument),
        },
    }
}

/// The step behind a lookup: makes the masked sample of a record from the
/// definitions that were found, or passes the failure of the lookup on.
pub fn sample_from_lookup(
    record: &Data,
    lookup: Result<Vec<String>, Failure>,
    num_answers: usize,
    rng: &mut StdRng,
) -> (outcome: Result<MaskedData, Failure>)
    requires
        num_answers >= 1,
    ensures
        is_sample_outcome(
            *record,
            match lookup {
                Ok(fetched) => Ok(texts(fetched@)),
                Err(failure) => Err(failure),
            },
            num_answers as int,
            outcome,
        ),
{
    match lookup {
        Err(failure) => Err(failure),
        Ok(fetched) => match build_masked_sample(record, &fetched, num_answers, rng) {
            Ok(sample) => Ok(sample),
            Err(BuildError::InsufficientAnswers { abbreviation, found }) => Err(
                Failure::InsufficientAnswers { abbreviation, found },
            ),
        },
    }
}

/// Reads the definitions out of a result page: `page` is the document, or
/// `None` where the fetch failed.
pub fn lookup_from_page(page: Option<&str>) -> (lookup: Result<Vec<String>, Failure>)
    ensures
        match lookup {
            Ok(fetched) => lookup_of(
                match page {
                    Some(document) => Some(document@),
                    None => None,
                },
            ) == Ok::<Seq<Seq<char>>, Failure>(texts(fetched@)),
            Err(failure) => lookup_of(
                match page {
                    Some(document) => Some(document@),
                    None => None,
                },
            ) == Err::<Seq<Seq<char>>, Failure>(failure),
        },
{
    match page {
        None => Err(Failure::Transport),
        Some(document) => match candidates_in(document) {
            Ok(fetched) => Ok(fetched),
            Err(_) => Err(Failure::MalformedDocument),
        },
    }
}

/// The step behind the fetch of a result page: makes the masked sample of a
/// record from the page, or tells why there is none.
pub fn sample_from_page(record: &Data, page: Option<&str>, num_answers: usize, rng: &mut StdRng) -> (outcome:
    Result<MaskedData, Failure>)
    requires
        num_answers >= 1,
    ensures
        is_sample_outcome(
            *record,
            lookup_of(
                match page {
                    Some(document) => Some(document@),
                    None => None,
                },
            ),
            num_answers as int,
            outcome,
        ),
{
    sample_from_lookup(record, lookup_from_page(page), num_answers, rng)
}

} // verus!
