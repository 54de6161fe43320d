//! Source-backed web research checks: strict dates, release versions and source evidence.

use vstd::prelude::*;

pub mod error;
pub mod text;
pub mod calendar_date;
pub mod source_date;
pub mod antigravity_version;
pub mod source_document_html;
pub mod source_document_heading;
pub mod source_url;
pub mod source_fact;
pub mod source_document;
pub mod source_document_sections;
pub mod source_contract;
pub mod types;
pub mod backend;
pub mod invocation;
pub mod redirect;
pub mod http_url;
pub mod source_restriction;
pub mod research_policy;
pub mod events;
pub mod response_models;
pub mod response;
pub mod response_urls;
pub mod prompt;
pub mod temporal_contract;
pub mod request;
pub mod cli;
pub mod execution;

verus! {

} // verus!
