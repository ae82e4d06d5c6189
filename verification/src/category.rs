//! The sections of the dictionary.
use crate::text::{eq_ignore_ascii_case, same_ignoring_ascii_case};
use std::str::FromStr;
use vstd::prelude::*;

verus! {

/// A section of the dictionary to search in.
#[derive(Clone, Copy, Debug, PartialEq, Eq, Structural)]
pub enum Category {
    All,
    IT,
    Science,
    Gov,
    Org,
    Business,
    Slang,
}

/// The name given for a category is none of the known ones.
#[derive(Clone, Copy, Debug, PartialEq, Eq, Structural)]
pub struct ParseCategoryError;

/// The category of a name, whatever the case of its ASCII letters.
pub open spec fn category_named(name: Seq<char>) -> Option<Category> {
    if same_ignoring_ascii_case(name, "All"@) {
        Some(Category::All)
    } else if same_ignoring_ascii_case(name, "IT"@) {
        Some(Category::IT)
    } else if same_ignoring_ascii_case(name, "Science"@) {
        Some(Category::Science)
    } else if same_ignoring_ascii_case(name, "Gov"@) {
        Some(Category::Gov)
    } else if same_ignoring_ascii_case(name, "Org"@) {
        Some(Category::Org)
    } else if same_ignoring_ascii_case(name, "Business"@) {
        Some(Category::Business)
    } else if same_ignoring_ascii_case(name, "Slang"@) {
        Some(Category::Slang)
    } else {
        None
    }
}

/// The part of a search address that stands for a category; empty for the
/// whole dictionary.
pub open spec fn segment_of(category: Category) -> Seq<char> {
    match category {
        Category::All => ""@,
        Category::IT => "Information-Technology"@,
        Category::Science => "Science-and-Medicine"@,
        Category::Gov => "Military-and-Government"@,
        Category::Org => "Organizations"@,
        Category::Business => "Business"@,
        Category::Slang => "Slang"@,
    }
}

impl Category {
    /// Reads a category from its name. It fails exactly where the name is
    /// none of the seven.
    pub fn parse(name: &str) -> (outcome: Result<Category, ParseCategoryError>)
        ensures
            match outcome {
                Ok(category) => category_named(name@) == Some(category),
                Err(_) => category_named(name@) is None,
            },
    {
        if eq_ignore_ascii_case(name, "All") {
            Ok(Category::All)
        } else if eq_ignore_ascii_case(name, "IT") {
            Ok(Category::IT)
        } else if eq_ignore_ascii_case(name, "Science") {
            Ok(Category::Science)
        } else if eq_ignore_ascii_case(name, "Gov") {
            Ok(Category::Gov)
        } else if eq_ignore_ascii_case(name, "Org") {
            Ok(Category::Org)
        } else if eq_ignore_ascii_case(name, "Business") {
            Ok(Category::Business)
        } else if eq_ignore_ascii_case(name, "Slang") {
            Ok(Category::Slang)
        } else {
            Err(ParseCategoryError)
        }
    }

    /// The part of a search address that stands for this category.
    pub fn path_segment(self) -> (segment: &'static str)
        ensures
            segment@ == segment_of(self),
    {
        match self {
            Category::All => "",
            Category::IT => "Information-Technology",
            Category::Science => "Science-and-Medicine",
            Category::Gov => "Military-and-Government",
            Category::Org => "Organizations",
            Category::Business => "Business",
            Category::Slang => "Slang",
        }
    }
}

impl FromStr for Category {
    type Err = ParseCategoryError;

    fn from_str(s: &str) -> (outcome: Result<Self, Self::Err>)
        ensures
            match outcome {
                Ok(category) => category_named(s@) == Some(category),
                Err(_) => category_named(s@) is None,
            },
    {
        Category::parse(s)
    }
}

} // verus!
