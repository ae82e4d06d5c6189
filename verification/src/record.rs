//! Records of the dictionary and their extraction from entry pages.
use crate::annotation::{
    annotations_overlap, has_annotation, lemma_stripped_is_clean, strip_annotation, stripped,
};
use crate::markup::{select_texts, selected_texts};
use crate::text::{chars_of, find, find_from, lemma_find_from, matches_at, occurs_at, string_of, texts, without_suffix};
use vstd::prelude::*;

verus! {

/// What separates the abbreviation from its definition in a page title.
pub const TITLE_SEPARATOR: &'static str = " - ";

/// The site's name as it ends every page title.
pub const SITE_SUFFIX: &'static str = " | AcronymFinder";

/// Selects the page title.
pub const TITLE_SELECTOR: &'static str = "title";

/// Selects the entries of the list of examples.
pub const EXAMPLE_SELECTOR: &'static str =
    "div.samples-list > article > div.samples-list__item__content";

/// One abbreviation with its definition and a sentence that uses it.
#[derive(Clone, Debug, PartialEq, Eq)]
pub struct Data {
    pub text: String,
    pub abbr: String,
    pub definition: String,
}

/// Why a page gave no record.
#[derive(Clone, Copy, Debug, PartialEq, Eq, Structural)]
pub enum ParseError {
    /// The page lacks a title with a separator, or an example entry.
    MalformedDocument,
}

/// The abbreviation and the full definition string of a title: what stands
/// before the first separator, and what stands between it and the next one,
/// or the end. `None` for a title without separator.
pub open spec fn title_parts(title: Seq<char>) -> Option<(Seq<char>, Seq<char>)> {
    let sep = TITLE_SEPARATOR@;
    match find_from(title, sep, 0) {
        None => None,
        Some(first) => {
            let start = first + sep.len();
            let end = match find_from(title, sep, start) {
                Some(second) => second,
                None => title.len() as int,
            };
            Some((title.take(first), title.subrange(start, end)))
        },
    }
}

/// `record` is what a page with this title and this first example gives.
pub open spec fn is_record_of(title: Seq<char>, example: Seq<char>, record: Data) -> bool {
    match title_parts(title) {
        Some((abbr, full)) => {
            &&& record.abbr@ == abbr
            &&& stripped(without_suffix(full, SITE_SUFFIX@), record.definition@)
            &&& stripped(example, record.text@)
        },
        None => false,
    }
}

/// `outcome` is what the titles and the example entries of a page give: a
/// record of the last title and the first example, or an error where one of
/// them is missing or the title has no separator.
pub open spec fn is_parse_of(
    titles: Option<Seq<Seq<char>>>,
    examples: Option<Seq<Seq<char>>>,
    outcome: Result<Data, ParseError>,
) -> bool {
    if titles is Some && examples is Some && titles->0.len() > 0 && examples->0.len() > 0 {
        match outcome {
            Ok(record) => is_record_of(titles->0.last(), examples->0.first(), record),
            Err(_) => title_parts(titles->0.last()) is None,
        }
    } else {
        outcome is Err
    }
}

/// The full definition string of a title without the site's name; empty for
/// a title without separator.
pub open spec fn title_definition(title: Seq<char>) -> Seq<char> {
    match title_parts(title) {
        Some((_, full)) => without_suffix(full, SITE_SUFFIX@),
        None => Seq::empty(),
    }
}

/// The definition and the sentence of a record hold no annotation, provided
/// that in the title's part and in the example they were taken from no
/// annotation began behind the end of the first one.
pub proof fn lemma_record_is_clean(title: Seq<char>, example: Seq<char>, record: Data)
    requires
        is_record_of(title, example, record),
        annotations_overlap(title_definition(title)),
        annotations_overlap(example),
    ensures
        !has_annotation(record.definition@),
        !has_annotation(record.text@),
{
    lemma_stripped_is_clean(title_definition(title), record.definition@);
    lemma_stripped_is_clean(example, record.text@);
}

/// Splits a title into abbreviation and full definition string.
pub fn split_title(title: &str) -> (parts: Option<(String, String)>)
    ensures
        match parts {
            Some((abbr, full)) => title_parts(title@) == Some((abbr@, full@)),
            None => title_parts(title@) is None,
        },
{
    let chars = chars_of(title);
    let sep = chars_of(TITLE_SEPARATOR);
    match find(&chars, &sep, 0) {
        None => None,
        Some(first) => {
            proof {
                lemma_find_from(chars@, sep@, 0);
            }
            let total = chars.len();
            assert(first + sep.len() <= total);
            let start = first + sep.len();
            let end = match find(&chars, &sep, start) {
                Some(second) => {
                    proof {
                        lemma_find_from(chars@, sep@, start as int);
                    }
                    second
                },
                None => total,
            };
            let abbr = string_of(&chars, 0, first);
            let full = string_of(&chars, start, end);
            Some((abbr, full))
        },
    }
}

/// Removes the site's name from the end of a full definition string.
pub fn strip_site_suffix(full: &str) -> (out: String)
    ensures
        out@ == without_suffix(full@, SITE_SUFFIX@),
{
    let chars = chars_of(full);
    let suffix = chars_of(SITE_SUFFIX);
    if suffix.len() <= chars.len() && matches_at(&chars, &suffix, chars.len() - suffix.len()) {
        string_of(&chars, 0, chars.len() - suffix.len())
    } else {
        assert(chars@.subrange(0, chars@.len() as int) =~= chars@);
        string_of(&chars, 0, chars.len())
    }
}

/// Builds the record of a page from its title and its first example.
pub fn record_from(title: &str, example: &str) -> (outcome: Result<Data, ParseError>)
    ensures
        match outcome {
            Ok(record) => is_record_of(title@, example@, record),
            Err(_) => title_parts(title@) is None,
        },
{
    match split_title(title) {
        None => Err(ParseError::MalformedDocument),
        Some((abbr, full)) => {
            let bare = strip_site_suffix(full.as_str());
            let definition = strip_annotation(bare.as_str());
            let text = strip_annotation(example);
            Ok(Data { text, abbr, definition })
        },
    }
}

/// Builds the record of a page from the texts of its title elements and of
/// its example entries.
pub fn record_from_selection(titles: Option<Vec<String>>, examples: Option<Vec<String>>) -> (outcome:
    Result<Data, ParseError>)
    ensures
        is_parse_of(
            match titles {
                Some(items) => Some(texts(items@)),
                None => None,
            },
            match examples {
                Some(items) => Some(texts(items@)),
                None => None,
            },
            outcome,
        ),
{
    match (titles, examples) {
        (Some(titles), Some(examples)) => {
            if titles.len() == 0 || examples.len() == 0 {
                Err(ParseError::MalformedDocument)
            } else {
                record_from(titles[titles.len() - 1].as_str(), examples[0].as_str())
            }
        },
        _ => Err(ParseError::MalformedDocument),
    }
}

/// Extracts the record of a dictionary entry page.
pub fn parse(document: &str) -> (outcome: Result<Data, ParseError>)
    ensures
        is_parse_of(
            selected_texts(document@, TITLE_SELECTOR@),
            selected_texts(document@, EXAMPLE_SELECTOR@),
            outcome,
        ),
{
    let titles = select_texts(document, TITLE_SELECTOR);
    let examples = select_texts(document, EXAMPLE_SELECTOR);
    record_from_selection(titles, examples)
}

} // verus!
