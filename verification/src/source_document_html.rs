//! Conservative structural HTML extraction for source panels and release rows.

pub mod attribute_selection;
pub mod element_name;
pub mod text_normalization;
pub mod tokenizer;
