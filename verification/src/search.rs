//! Looking an abbreviation up: the address to ask, and the definitions in
//! the page that comes back.
use crate::category::{segment_of, Category};
use crate::markup::{nested_last_texts, optional_texts, select_nested_last_texts};
use crate::record::ParseError;
use crate::text::texts;
use vstd::prelude::*;
use vstd::string::StringExecFns;

verus! {

/// The address of the dictionary.
pub const BASE_URL: &'static str = "https://www.acronymfinder.com";

/// The address that answers with the page of some entry, chosen by the site.
pub const RANDOM_URL: &'static str = "https://www.acronymfinder.com/random.aspx";

/// Selects the bodies of the result tables.
pub const RESULT_TABLE_SELECTOR: &'static str = "div.tab-content > table > tbody";

/// Selects, inside a result table, the cells that hold a definition.
pub const RESULT_CELL_SELECTOR: &'static str = "td.result-list__body__meaning";

/// The address of the page that lists the definitions of an abbreviation in
/// a category.
pub open spec fn search_address(abbreviation: Seq<char>, category: Category) -> Seq<char> {
    if category == Category::All {
        BASE_URL@ + "/"@ + abbreviation + ".html"@
    } else {
        BASE_URL@ + "/"@ + segment_of(category) + "/"@ + abbreviation + ".html"@
    }
}

/// Every cell holds a text.
pub open spec fn all_present(cells: Seq<Option<Seq<char>>>) -> bool {
    forall|i: int| 0 <= i < cells.len() ==> (#[trigger] cells[i]) is Some
}

/// The texts of cells that all hold one.
pub open spec fn present_texts(cells: Seq<Option<Seq<char>>>) -> Seq<Seq<char>> {
    Seq::new(cells.len(), |i: int| cells[i]->0)
}

/// `outcome` is what the definition cells of a result page give: their
/// texts in order, or an error where the cells could not be selected or one
/// of them holds no text.
pub open spec fn is_meanings_of(
    cells: Option<Seq<Option<Seq<char>>>>,
    outcome: Result<Vec<String>, ParseError>,
) -> bool {
    match cells {
        Some(cells) => if all_present(cells) {
            outcome is Ok && texts(outcome->Ok_0@) == present_texts(cells)
        } else {
            outcome is Err
        },
        None => outcome is Err,
    }
}

/// Gives the address of the page that lists the definitions of an
/// abbreviation in a category.
pub fn search_url(abbreviation: &str, category: Category) -> (url: String)
    ensures
        url@ == search_address(abbreviation@, category),
{
    let mut url = String::from_str(BASE_URL);
    url.append("/");
    match category {
        Category::All => {},
        _ => {
            url.append(category.path_segment());
            url.append("/");
        },
    }
    url.append(abbreviation);
    url.append(".html");
    url
}

/// Takes the definitions out of the cells of a result page.
pub fn meanings_from(cells: Option<Vec<Option<String>>>) -> (outcome: Result<Vec<String>, ParseError>)
    ensures
        is_meanings_of(
            match cells {
                Some(items) => Some(optional_texts(items@)),
                None => None,
            },
            outcome,
        ),
{
    let items = match cells {
        Some(items) => items,
        None => {
            return Err(ParseError::MalformedDocument);
        },
    };
    let mut found: Vec<String> = Vec::new();
    let mut i: usize = 0;
    while i < items.len()
        invariant
            i <= items.len(),
            found.len() == i,
            cells == Some(items),
            forall|j: int| 0 <= j < i ==> (#[trigger] optional_texts(items@)[j]) is Some,
            forall|j: int| 0 <= j < i ==> (#[trigger] found@[j])@ == optional_texts(items@)[j]->0,
        decreases items.len() - i,
    {
        match &items[i] {
            Some(text) => {
                found.push(text.clone());
            },
            None => {
                assert(optional_texts(items@)[i as int] is None);
                assert(!all_present(optional_texts(items@)));
                return Err(ParseError::MalformedDocument);
            },
        }
        i += 1;
    }
    assert(texts(found@) =~= present_texts(optional_texts(items@)));
    Ok(found)
}

/// Lists the definitions that a result page holds.
pub fn candidates_in(document: &str) -> (outcome: Result<Vec<String>, ParseError>)
    ensures
        is_meanings_of(
            nested_last_texts(document@, RESULT_TABLE_SELECTOR@, RESULT_CELL_SELECTOR@),
            outcome,
        ),
{
    meanings_from(select_nested_last_texts(document, RESULT_TABLE_SELECTOR, RESULT_CELL_SELECTOR))
}

} // verus!
