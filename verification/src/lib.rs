//! Building blocks for a masked-abbreviation training corpus: parsing
//! dictionary pages into records, claiming abbreviations once per run,
//! assembling shuffled answer sets and masking example sentences.
pub mod annotation;
pub mod answers;
pub mod batch;
pub mod category;
pub mod dedup;
pub mod markup;
pub mod masking;
pub mod pipeline;
pub mod record;
pub mod search;
pub mod table;
pub mod text;

pub use crate::category::{Category, ParseCategoryError};
pub use crate::masking::MaskedData;
pub use crate::record::Data;
