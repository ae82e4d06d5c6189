use abbreviation_lookup::category::{Category, ParseCategoryError};
use abbreviation_lookup::search::{candidates_in, meanings_from, search_url, BASE_URL, RANDOM_URL};
use abbreviation_lookup::record::ParseError;
use std::str::FromStr;

#[test]
fn category_is_read_from_its_name() {
    assert_eq!(Category::parse("All"), Ok(Category::All));
    assert_eq!(Category::parse("IT"), Ok(Category::IT));
    assert_eq!(Category::parse("Science"), Ok(Category::Science));
    assert_eq!(Category::parse("Gov"), Ok(Category::Gov));
    assert_eq!(Category::parse("Org"), Ok(Category::Org));
    assert_eq!(Category::parse("Business"), Ok(Category::Business));
    assert_eq!(Category::parse("Slang"), Ok(Category::Slang));
}

#[test]
fn category_name_is_read_without_case() {
    assert_eq!(Category::parse("all"), Ok(Category::All));
    assert_eq!(Category::parse("it"), Ok(Category::IT));
    assert_eq!(Category::parse("sCiEnCe"), Ok(Category::Science));
    assert_eq!(Category::parse("GOV"), Ok(Category::Gov));
    assert_eq!(Category::parse("SLang"), Ok(Category::Slang));
    assert_eq!(Category::parse("BUSINESS"), Ok(Category::Business));
}

#[test]
fn unknown_category_name_is_refused() {
    assert_eq!(Category::parse(""), Err(ParseCategoryError));
    assert_eq!(Category::parse("Medicine"), Err(ParseCategoryError));
    assert_eq!(Category::parse("All "), Err(ParseCategoryError));
    assert_eq!(Category::parse("Al"), Err(ParseCategoryError));
    assert_eq!(Category::parse("Sciénce"), Err(ParseCategoryError));
}

#[test]
fn category_is_read_through_from_str() {
    assert_eq!(Category::from_str("org"), Ok(Category::Org));
    assert_eq!("slang".parse::<Category>(), Ok(Category::Slang));
    assert_eq!("nothing".parse::<Category>(), Err(ParseCategoryError));
}

#[test]
fn category_has_its_path_segment() {
    assert_eq!(Category::All.path_segment(), "");
    assert_eq!(Category::IT.path_segment(), "Information-Technology");
    assert_eq!(Category::Science.path_segment(), "Science-and-Medicine");
    assert_eq!(Category::Gov.path_segment(), "Military-and-Government");
    assert_eq!(Category::Org.path_segment(), "Organizations");
    assert_eq!(Category::Business.path_segment(), "Business");
    assert_eq!(Category::Slang.path_segment(), "Slang");
}

#[test]
fn search_address_holds_category_and_abbreviation() {
    assert_eq!(search_url("NASA", Category::All), "https://www.acronymfinder.com/NASA.html");
    assert_eq!(
        search_url("NASA", Category::IT),
        "https://www.acronymfinder.com/Information-Technology/NASA.html"
    );
    assert_eq!(
        search_url("NASA", Category::Science),
        "https://www.acronymfinder.com/Science-and-Medicine/NASA.html"
    );
    assert_eq!(
        search_url("NASA", Category::Gov),
        "https://www.acronymfinder.com/Military-and-Government/NASA.html"
    );
    assert_eq!(
        search_url("NASA", Category::Org),
        "https://www.acronymfinder.com/Organizations/NASA.html"
    );
    assert_eq!(
        search_url("NASA", Category::Business),
        "https://www.acronymfinder.com/Business/NASA.html"
    );
    assert_eq!(search_url("", Category::Slang), "https://www.acronymfinder.com/Slang/.html");
    assert_eq!(BASE_URL, "https://www.acronymfinder.com");
    assert_eq!(RANDOM_URL, "https://www.acronymfinder.com/random.aspx");
}

const RESULTS: &str = "<html><body><div class=\"tab-content\"><table><tbody>\
<tr><td class=\"result-list__body__rank\">NASA</td><td class=\"result-list__body__meaning\"><a href=\"/x\">National Aeronautics and Space Administration</a></td></tr>\
<tr><td class=\"result-list__body__meaning\">North American <b>Saxophone</b> Alliance</td></tr>\
</tbody></table></div>\
<table><tbody><tr><td class=\"result-list__body__meaning\">outside the tab</td></tr></tbody></table>\
</body></html>";

#[test]
fn result_page_gives_its_definitions() {
    assert_eq!(
        candidates_in(RESULTS),
        Ok(vec![
            "National Aeronautics and Space Administration".to_string(),
            " Alliance".to_string(),
        ])
    );
}

#[test]
fn page_without_results_gives_none() {
    assert_eq!(candidates_in("<html><body><p>nothing</p></body></html>"), Ok(vec![]));
    assert_eq!(candidates_in(""), Ok(vec![]));
}

#[test]
fn result_cell_without_text_is_malformed() {
    let page = "<div class=\"tab-content\"><table><tbody><tr><td class=\"result-list__body__meaning\">a</td><td class=\"result-list__body__meaning\"></td></tr></tbody></table></div>";
    assert_eq!(candidates_in(page), Err(ParseError::MalformedDocument));
}

#[test]
fn meanings_are_the_texts_of_the_cells() {
    assert_eq!(
        meanings_from(Some(vec![Some("a".to_string()), Some("b".to_string())])),
        Ok(vec!["a".to_string(), "b".to_string()])
    );
    assert_eq!(meanings_from(Some(vec![])), Ok(vec![]));
    assert_eq!(
        meanings_from(Some(vec![Some("a".to_string()), None])),
        Err(ParseError::MalformedDocument)
    );
    assert_eq!(meanings_from(None), Err(ParseError::MalformedDocument));
}
