//! Response document validation and URL traversal.

pub mod collection_validation;
pub mod public_dates;
pub mod research_validation;
pub mod validation;
pub mod request_validation;
pub mod source_schema;
pub mod text_presence;
