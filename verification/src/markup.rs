//! Text extraction from HTML documents by CSS selectors.
use crate::text::texts;
use scraper::{Html, Selector};
use vstd::prelude::*;

verus! {

/// What the scraper crate finds in a document for a selector: for each
/// element that matches, in document order, the text of all its descendant
/// text nodes joined together. `None` where the selector is not valid CSS.
pub uninterp spec fn selected_texts(document: Seq<char>, selector: Seq<char>) -> Option<
    Seq<Seq<char>>,
>;

/// What the scraper crate finds for a pair of selectors: for each element
/// matching `outer`, and each of its descendants matching `inner`, the last
/// descendant text node of that descendant, or `None` where it has none.
/// `None` as a whole where one of the selectors is not valid CSS.
pub uninterp spec fn nested_last_texts(
    document: Seq<char>,
    outer: Seq<char>,
    inner: Seq<char>,
) -> Option<Seq<Option<Seq<char>>>>;

/// The views of a sequence of optional strings.
pub open spec fn optional_texts(items: Seq<Option<String>>) -> Seq<Option<Seq<char>>> {
    Seq::new(
        items.len(),
        |i: int|
            match items[i] {
                Some(item) => Some(item@),
                None => None,
            },
    )
}

/// Wraps `Selector::parse`, `Html::parse_document`, `Html::select` and
/// `ElementRef::text` of the scraper crate. The result is named, not
/// described: it depends on the document and the selector alone.
#[verifier::external_body]
pub(crate) fn select_texts(document: &str, selector: &str) -> (found: Option<Vec<String>>)
    ensures
        match found {
            Some(items) => selected_texts(document@, selector@) == Some(texts(items@)),
            None => selected_texts(document@, selector@) is None,
        },
{
    let selector = Selector::parse(selector).ok()?;
    let html = Html::parse_document(document);
    Some(html.select(&selector).map(|element| element.text().collect::<String>()).collect())
}

/// Wraps `Selector::parse`, `Html::parse_document`, `Html::select`,
/// `ElementRef::select` and `ElementRef::text` of the scraper crate. The
/// result is named, not described: it depends on the document and the two
/// selectors alone.
#[verifier::external_body]
pub(crate) fn select_nested_last_texts(document: &str, outer: &str, inner: &str) -> (found: Option<
    Vec<Option<String>>,
>)
    ensures
        match found {
            Some(items) => nested_last_texts(document@, outer@, inner@) == Some(
                optional_texts(items@),
            ),
            None => nested_last_texts(document@, outer@, inner@) is None,
        },
{
    let outer = Selector::parse(outer).ok()?;
    let inner = Selector::parse(inner).ok()?;
    let html = Html::parse_document(document);
    let mut found = Vec::new();
    for table in html.select(&outer) {
        for item in table.select(&inner) {
            found.push(item.text().last().map(String::from));
        }
    }
    Some(found)
}

} // verus!
