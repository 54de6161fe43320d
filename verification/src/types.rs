//! Small closed vocabularies shared by requests, policies and the backend.

use vstd::prelude::*;
use crate::text::{chars_of, is_space, is_space_exec};

verus! {

/// The public operation a content request performs.
#[derive(Clone, Copy, Debug, PartialEq, Eq, Structural)]
pub enum Operation {
    Search,
    Extract,
    SiteMap,
    Crawl,
    Research,
}

/// The name under which an operation is invoked and spoken of.
pub open spec fn operation_name(operation: Operation) -> Seq<char> {
    match operation {
        Operation::Search => "search"@,
        Operation::Extract => "extract"@,
        Operation::SiteMap => "map"@,
        Operation::Crawl => "crawl"@,
        Operation::Research => "research"@,
    }
}

impl Operation {
    /// The operation's command name.
    pub fn name(&self) -> (name: &'static str)
        ensures
            name@ == operation_name(*self),
    {
        match self {
            Operation::Search => "search",
            Operation::Extract => "extract",
            Operation::SiteMap => "map",
            Operation::Crawl => "crawl",
            Operation::Research => "research",
        }
    }
}

/// Extra evidence requirements for time-ordered scope comparisons.
#[derive(Clone, Copy, Debug, PartialEq, Eq, Structural)]
pub enum VerificationMode {
    Standard,
    TemporalComparison,
}

/// Where a request's evidence should come from first.
#[derive(Clone, Copy, Debug, PartialEq, Eq, Structural)]
pub enum SourcePolicy {
    PrimaryFirst,
}

/// How much of the requested scope a request must cover.
#[derive(Clone, Copy, Debug, PartialEq, Eq, Structural)]
pub enum ScopePolicy {
    CompleteRequestedScope,
}

/// Where a request's dates may come from.
#[derive(Clone, Copy, Debug, PartialEq, Eq, Structural)]
pub enum DatePolicy {
    ExplicitSourceOnly,
}

/// Text that holds at least one character that is not white space.
pub open spec fn non_empty_text(s: Seq<char>) -> bool {
    exists|i: int| 0 <= i < s.len() && !is_space(#[trigger] s[i])
}

/// Accept text that is not blank, unchanged.
pub fn parse_non_empty_text(value: &str) -> (r: Option<String>)
    ensures
        match r {
            Some(t) => non_empty_text(value@) && t@ == value@,
            None => !non_empty_text(value@),
        },
{
    let chars = chars_of(value);
    let mut i: usize = 0;
    while i < chars.len()
        invariant
            chars@ == value@,
            i <= chars@.len(),
            forall|k: int| 0 <= k < i ==> is_space(#[trigger] chars@[k]),
        decreases chars@.len() - i,
    {
        if !is_space_exec(chars[i]) {
            return Some(value.to_string());
        }
        i = i + 1;
    }
    None
}

/// Antigravity reasoning effort.
#[derive(Clone, Copy, Debug, PartialEq, Eq, Structural)]
pub enum Effort {
    Low,
    Medium,
    High,
}

/// A model the backend prefers for a request when the caller pinned none.
#[derive(Clone, Copy, Debug, PartialEq, Eq, Structural)]
pub enum PreferredSearchModel {
    Gemini36FlashLow,
}

} // verus!
