//! The parsed public options of one command-line invocation.

use vstd::prelude::*;
use crate::calendar_date::CalendarDate;
use crate::http_url::HttpUrl;
use crate::source_restriction::SourceDomain;
use crate::types::{non_empty_text, parse_non_empty_text, Effort, VerificationMode};

verus! {

/// Parsed public options for one standalone invocation.
#[derive(Debug)]
pub struct Cli {
    /// Antigravity executable name or path.
    pub agy_path: String,
    /// Dynamically discovered Antigravity model slug.
    pub model: Option<String>,
    /// Antigravity reasoning effort.
    pub effort: Option<Effort>,
    /// Additional evidence requirements for time-ordered scope comparisons.
    pub verification: VerificationMode,
    /// End-to-end downstream deadline in seconds.
    pub timeout: u64,
    pub command: Command,
}

/// The public operations.
#[derive(Debug)]
pub enum Command {
    /// Check Antigravity availability and summarize discovered models.
    Status(OutputArgs),
    /// List models exposed by the local Antigravity installation.
    Models(OutputArgs),
    /// Search the web and return ranked sources.
    Search(SearchArgs),
    /// Extract source-backed content from exact URLs.
    Extract(ExtractArgs),
    /// Discover URLs beneath a site.
    SiteMap(SiteArgs),
    /// Crawl a site and return extracted pages.
    Crawl(CrawlArgs),
    /// Produce a cited multi-source research answer.
    Research(ResearchArgs),
}

/// Where the canonical JSON goes.
#[derive(Debug)]
pub struct OutputArgs {
    /// Write canonical JSON to this file instead of standard output.
    pub output: Option<String>,
    /// Emit canonical JSON, already the default success format.
    pub json: bool,
}

/// Options of a search.
#[derive(Debug)]
pub struct SearchArgs {
    pub query: QueryArgument,
    pub max_results: u16,
    pub domains: Vec<SourceDomain>,
    pub country: Option<String>,
    pub max_tokens_per_page: Option<u32>,
    pub scopes: Vec<String>,
    pub source_urls: Vec<HttpUrl>,
    pub cutoff: Option<CalendarDate>,
    pub output: OutputArgs,
}

/// Options of an extraction.
#[derive(Debug)]
pub struct ExtractArgs {
    pub urls: Vec<HttpUrl>,
    pub query: Option<String>,
    pub output: OutputArgs,
}

/// Options of a site map.
#[derive(Debug)]
pub struct SiteArgs {
    pub url: HttpUrl,
    pub limit: u16,
    pub instructions: Option<String>,
    pub allow_external: bool,
    pub output: OutputArgs,
}

/// Options of a crawl.
#[derive(Debug)]
pub struct CrawlArgs {
    pub url: HttpUrl,
    pub limit: u16,
    pub instructions: Option<String>,
    pub allow_external: bool,
    pub output: OutputArgs,
}

/// Options of a research run.
#[derive(Debug)]
pub struct ResearchArgs {
    pub query: QueryArgument,
    pub max_sources: u16,
    pub domains: Vec<SourceDomain>,
    pub scopes: Vec<String>,
    pub source_urls: Vec<HttpUrl>,
    pub cutoff: Option<CalendarDate>,
    pub output: OutputArgs,
}

/// Query text, or a request to read it from standard input.
#[derive(Debug)]
pub enum QueryArgument {
    Stdin,
    Text(String),
}

impl Clone for QueryArgument {
    fn clone(&self) -> (r: Self)
        ensures
            match (*self, r) {
                (QueryArgument::Stdin, QueryArgument::Stdin) => true,
                (QueryArgument::Text(a), QueryArgument::Text(b)) => a@ == b@,
                _ => false,
            },
    {
        match self {
            QueryArgument::Stdin => QueryArgument::Stdin,
            QueryArgument::Text(t) => QueryArgument::Text(t.clone()),
        }
    }
}

impl QueryArgument {
    /// `-` asks for standard input; anything else must be non-blank text.
    pub fn parse(value: &str) -> (r: Result<QueryArgument, &'static str>)
        ensures
            value@ == "-"@ ==> r matches Ok(QueryArgument::Stdin),
            value@ != "-"@ ==> match r {
                Ok(QueryArgument::Text(t)) => non_empty_text(value@) && t@ == value@,
                Ok(QueryArgument::Stdin) => false,
                Err(_) => !non_empty_text(value@),
            },
    {
        proof {
            reveal_strlit("-");
        }
        let chars = crate::text::chars_of(value);
        if chars.len() == 1 && chars[0] == '-' {
            proof {
                assert(value@ =~= "-"@);
            }
            return Ok(QueryArgument::Stdin);
        }
        proof {
            assert(value@ != "-"@);
        }
        match parse_non_empty_text(value) {
            Some(text) => Ok(QueryArgument::Text(text)),
            None => Err("text must not be blank"),
        }
    }
}

} // verus!
