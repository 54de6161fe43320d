//! Checks that turn parsed arguments into one consistent runtime request.

use vstd::prelude::*;

use crate::cli::{Cli, Command, QueryArgument, SearchArgs, ResearchArgs};
use crate::http_url::HttpUrl;
use crate::request::{
    attempts_for_sources, contract_option, ContentRequest, CrawlRequest, ExtractRequest,
    MapRequest, ResearchAttemptBudget, ResearchRequest, SearchRequest,
};
use crate::source_restriction::{
    domain_views, url_views, RestrictionView, SourceDomain, SourceRestriction, MAX_DOMAINS,
};
use crate::temporal_contract::{contract_outcome, date_view, string_views, TemporalContract};
use crate::types::{DatePolicy, ScopePolicy, SourcePolicy, VerificationMode};
use crate::error::AgyError;
use crate::text::{chars_of, string_from_utf8};
use crate::types::{non_empty_text, parse_non_empty_text, Effort};
use vstd::utf8::{decode_utf8, valid_utf8};

verus! {

/// A model pinned with an effort suffix agrees with an explicit effort: either side may be
/// absent, and when both are present they must be the same.
pub open spec fn model_effort_agrees(model_effort: Option<Effort>, effort: Option<Effort>) -> bool {
    match (model_effort, effort) {
        (Some(m), Some(e)) => m == e,
        _ => true,
    }
}

/// Refuse a pinned model whose effort suffix contradicts the explicit effort. `model_effort` is
/// the effort suffix of the pinned model, if a model is pinned and its slug carries one.
pub fn validate_model_effort(model_effort: Option<Effort>, effort: Option<Effort>) -> (r: Result<(), AgyError>)
    ensures
        r is Ok <==> model_effort_agrees(model_effort, effort),
        r matches Err(e) ==> e == AgyError::InvalidCommand,
{
    let model_effort = match model_effort {
        Some(m) => m,
        None => {
            return Ok(());
        },
    };
    let effort = match effort {
        Some(e) => e,
        None => {
            return Ok(());
        },
    };
    if model_effort == effort {
        Ok(())
    } else {
        Err(AgyError::InvalidCommand)
    }
}

} // verus!

verus! {

/// The most bytes a query read from standard input may hold.
pub const STDIN_LIMIT_BYTES: usize = 102400;

/// The query text that a query argument stands for: the text itself, or the standard input
/// when it holds at most the limit of valid UTF-8 that is not blank.
pub open spec fn query_outcome(argument: QueryArgument, stdin: Seq<u8>) -> Option<Seq<char>> {
    match argument {
        QueryArgument::Text(t) => Some(t@),
        QueryArgument::Stdin => if stdin.len() <= STDIN_LIMIT_BYTES && valid_utf8(stdin)
            && non_empty_text(decode_utf8(stdin)) {
            Some(decode_utf8(stdin))
        } else {
            None
        },
    }
}

/// The query of a request. `stdin` is what was read from standard input, at most one byte past
/// the limit; it is read only for `QueryArgument::Stdin`.
pub fn resolve_query(argument: QueryArgument, stdin: &[u8]) -> (r: Result<String, AgyError>)
    ensures
        match query_outcome(argument, stdin@) {
            Some(q) => r matches Ok(t) && t@ == q,
            None => r == Err::<String, AgyError>(AgyError::InvalidCommand),
        },
{
    match argument {
        QueryArgument::Text(text) => Ok(text),
        QueryArgument::Stdin => read_query_from_bytes(stdin),
    }
}

/// The query held by the bytes of standard input.
fn read_query_from_bytes(bytes: &[u8]) -> (r: Result<String, AgyError>)
    ensures
        match query_outcome(QueryArgument::Stdin, bytes@) {
            Some(q) => r matches Ok(t) && t@ == q,
            None => r == Err::<String, AgyError>(AgyError::InvalidCommand),
        },
{
    if bytes.len() > STDIN_LIMIT_BYTES {
        return Err(AgyError::InvalidCommand);
    }
    let text = match string_from_utf8(bytes) {
        Some(text) => text,
        None => {
            return Err(AgyError::InvalidCommand);
        },
    };
    match parse_non_empty_text(text.as_str()) {
        Some(query) => Ok(query),
        None => Err(AgyError::InvalidCommand),
    }
}

/// The effort a model slug pins by its suffix: `-low`, `-medium` or `-high`.
pub open spec fn slug_effort(slug: Seq<char>) -> Option<Effort> {
    if slug.len() >= 4 && slug.subrange(slug.len() - 4, slug.len() as int) == "-low"@ {
        Some(Effort::Low)
    } else if slug.len() >= 7 && slug.subrange(slug.len() - 7, slug.len() as int) == "-medium"@ {
        Some(Effort::Medium)
    } else if slug.len() >= 5 && slug.subrange(slug.len() - 5, slug.len() as int) == "-high"@ {
        Some(Effort::High)
    } else {
        None
    }
}

/// Whether `s` ends with `suffix`.
fn ends_with_chars(s: &[char], suffix: &[char]) -> (r: bool)
    ensures
        r == (s@.len() >= suffix@.len() && s@.subrange(s@.len() - suffix@.len(), s@.len() as int) == suffix@),
{
    if s.len() < suffix.len() {
        return false;
    }
    let start = s.len() - suffix.len();
    let mut i: usize = 0;
    while i < suffix.len()
        invariant
            start == s@.len() - suffix@.len(),
            start + suffix@.len() == s@.len(),
            s@.len() == s.len(),
            suffix@.len() == suffix.len(),
            i <= suffix@.len(),
            forall|k: int| 0 <= k < i ==> s@[start + k] == suffix@[k],
        decreases suffix@.len() - i,
    {
        if s[start + i] != suffix[i] {
            proof {
                assert(s@.subrange(s@.len() - suffix@.len(), s@.len() as int)[i as int] != suffix@[i as int]);
            }
            return false;
        }
        i = i + 1;
    }
    proof {
        assert(s@.subrange(s@.len() - suffix@.len(), s@.len() as int) =~= suffix@);
    }
    true
}

/// The effort a model slug pins by its suffix, if any.
pub fn model_effort_suffix(slug: &str) -> (r: Option<Effort>)
    ensures
        r == slug_effort(slug@),
{
    proof {
        reveal_strlit("-low");
        reveal_strlit("-medium");
        reveal_strlit("-high");
    }
    let s = chars_of(slug);
    if ends_with_chars(s.as_slice(), chars_of("-low").as_slice()) {
        Some(Effort::Low)
    } else if ends_with_chars(s.as_slice(), chars_of("-medium").as_slice()) {
        Some(Effort::Medium)
    } else if ends_with_chars(s.as_slice(), chars_of("-high").as_slice()) {
        Some(Effort::High)
    } else {
        None
    }
}

} // verus!

verus! {

/// A validated runtime request.
#[derive(Debug)]
pub struct Invocation {
    pub agy_path: String,
    pub model: Option<String>,
    pub effort: Option<Effort>,
    pub timeout: u64,
    pub command: InvocationCommand,
    pub output: Option<String>,
}

/// What an invocation does.
#[derive(Debug)]
pub enum InvocationCommand {
    Status,
    Models,
    Content(Box<ContentRequest>),
}

/// The restriction the caller's domains and exact URLs form, if at most twenty domains.
pub open spec fn restriction_of(domains: Seq<SourceDomain>, urls: Seq<HttpUrl>) -> Option<RestrictionView> {
    if domains.len() > MAX_DOMAINS {
        None
    } else if domains.len() == 0 && urls.len() == 0 {
        Some(RestrictionView::Unrestricted)
    } else {
        Some(RestrictionView::Allowlist { domains: domain_views(domains), urls: url_views(urls) })
    }
}

/// The exact sources a temporal contract keeps: only a temporal comparison keeps any.
pub open spec fn temporal_urls(verification: VerificationMode, urls: Seq<Seq<char>>) -> Seq<Seq<char>> {
    match verification {
        VerificationMode::Standard => Seq::empty(),
        VerificationMode::TemporalComparison => urls,
    }
}

/// The temporal contract the caller's options amount to.
pub open spec fn contract_of(
    verification: VerificationMode,
    scopes: Seq<String>,
    urls: Seq<HttpUrl>,
    cutoff: Option<crate::calendar_date::CalendarDate>,
) -> Result<Option<crate::temporal_contract::ContractView>, AgyError> {
    contract_outcome(verification, string_views(scopes), temporal_urls(verification, url_views(urls)), date_view(cutoff))
}

/// A search's options form a request.
pub open spec fn search_accepted(a: SearchArgs, verification: VerificationMode, stdin: Seq<u8>) -> bool {
    &&& restriction_of(a.domains@, a.source_urls@) is Some
    &&& contract_of(verification, a.scopes@, a.source_urls@, a.cutoff) is Ok
    &&& query_outcome(a.query, stdin) is Some
}

/// A research run's options form a request.
pub open spec fn research_accepted(a: ResearchArgs, verification: VerificationMode, stdin: Seq<u8>) -> bool {
    &&& restriction_of(a.domains@, a.source_urls@) is Some
    &&& contract_of(verification, a.scopes@, a.source_urls@, a.cutoff) is Ok
    &&& query_outcome(a.query, stdin) is Some
}

/// The search request built from a search's options.
pub open spec fn search_request_of(r: SearchRequest, a: SearchArgs, verification: VerificationMode, stdin: Seq<u8>) -> bool {
    &&& query_outcome(a.query, stdin) == Some(r.query@)
    &&& r.source_policy == SourcePolicy::PrimaryFirst
    &&& r.scope_policy == ScopePolicy::CompleteRequestedScope
    &&& r.date_policy == DatePolicy::ExplicitSourceOnly
    &&& r.verification == verification
    &&& contract_of(verification, a.scopes@, a.source_urls@, a.cutoff) == Ok::<_, AgyError>(contract_option(r.temporal_contract))
    &&& restriction_of(a.domains@, a.source_urls@) == Some(r.source_restriction@)
    &&& r.max_results == a.max_results
    &&& r.country == a.country
    &&& r.max_tokens_per_page == a.max_tokens_per_page
}

/// The research request built from a research run's options.
pub open spec fn research_request_of(r: ResearchRequest, a: ResearchArgs, verification: VerificationMode, stdin: Seq<u8>) -> bool {
    &&& query_outcome(a.query, stdin) == Some(r.query@)
    &&& r.source_policy == SourcePolicy::PrimaryFirst
    &&& r.scope_policy == ScopePolicy::CompleteRequestedScope
    &&& r.date_policy == DatePolicy::ExplicitSourceOnly
    &&& r.verification == verification
    &&& contract_of(verification, a.scopes@, a.source_urls@, a.cutoff) == Ok::<_, AgyError>(contract_option(r.temporal_contract))
    &&& restriction_of(a.domains@, a.source_urls@) == Some(r.source_restriction@)
    &&& r.max_sources == a.max_sources
    &&& r.tool_call_budget.attempts == attempts_for_sources(a.max_sources)
}

/// What converting a command gives: the runtime command and the output path.
pub open spec fn converts_to(
    command: Command,
    verification: VerificationMode,
    stdin: Seq<u8>,
    r: Result<(InvocationCommand, Option<String>), AgyError>,
) -> bool {
    match command {
        Command::Status(o) => r matches Ok((InvocationCommand::Status, out)) && out == o.output,
        Command::Models(o) => r matches Ok((InvocationCommand::Models, out)) && out == o.output,
        Command::Search(a) => match r {
            Ok((InvocationCommand::Content(req), out)) => search_accepted(a, verification, stdin)
                && out == a.output.output
                && (*req matches ContentRequest::Search(s) && search_request_of(s, a, verification, stdin)),
            Ok(_) => false,
            Err(e) => !search_accepted(a, verification, stdin) && e == AgyError::InvalidCommand,
        },
        Command::Extract(a) => r matches Ok((InvocationCommand::Content(req), out))
            && out == a.output.output
            && *req == ContentRequest::Extract(ExtractRequest { urls: a.urls, query: a.query }),
        Command::SiteMap(a) => r matches Ok((InvocationCommand::Content(req), out))
            && out == a.output.output
            && *req == ContentRequest::SiteMap(MapRequest {
                url: a.url,
                limit: a.limit,
                instructions: a.instructions,
                allow_external: a.allow_external,
            }),
        Command::Crawl(a) => r matches Ok((InvocationCommand::Content(req), out))
            && out == a.output.output
            && *req == ContentRequest::Crawl(CrawlRequest {
                url: a.url,
                limit: a.limit,
                instructions: a.instructions,
                allow_external: a.allow_external,
            }),
        Command::Research(a) => match r {
            Ok((InvocationCommand::Content(req), out)) => research_accepted(a, verification, stdin)
                && out == a.output.output
                && (*req matches ContentRequest::Research(s) && research_request_of(s, a, verification, stdin)),
            Ok(_) => false,
            Err(e) => !research_accepted(a, verification, stdin) && e == AgyError::InvalidCommand,
        },
    }
}

/// Copy a list of URLs.
fn clone_urls(urls: &Vec<HttpUrl>) -> (r: Vec<HttpUrl>)
    ensures
        url_views(r@) == url_views(urls@),
{
    let mut out: Vec<HttpUrl> = Vec::new();
    let mut i: usize = 0;
    while i < urls.len()
        invariant
            i <= urls@.len(),
            out@.len() == i,
            forall|k: int| 0 <= k < i ==> #[trigger] out@[k]@ == urls@[k]@,
        decreases urls@.len() - i,
    {
        out.push(urls[i].clone());
        i = i + 1;
    }
    proof {
        assert(url_views(out@) =~= url_views(urls@));
    }
    out
}

/// The restriction formed by the caller's domains and exact URLs.
fn restriction_from(domains: Vec<SourceDomain>, urls: &Vec<HttpUrl>) -> (r: Result<SourceRestriction, AgyError>)
    ensures
        match r {
            Ok(s) => restriction_of(domains@, urls@) == Some(s@),
            Err(e) => restriction_of(domains@, urls@) is None && e == AgyError::InvalidCommand,
        },
{
    let ghost d0 = domains@;
    let kept = clone_urls(urls);
    let r = SourceRestriction::parse(domains, kept);
    proof {
        assert(url_views(kept@).len() == kept@.len());
        assert(url_views(urls@).len() == urls@.len());
        match &r {
            Ok(SourceRestriction::Allowlist { domains: d, urls: u }) => {
                assert(u@ == kept@);
                assert(url_views(u@) == url_views(urls@));
                assert(d@ == d0);
            },
            _ => {},
        }
    }
    r
}

/// The exact sources kept for the temporal contract.
fn temporal_source_urls(verification: VerificationMode, urls: Vec<HttpUrl>) -> (r: Vec<HttpUrl>)
    ensures
        url_views(r@) == temporal_urls(verification, url_views(urls@)),
{
    match verification {
        VerificationMode::Standard => {
            let empty: Vec<HttpUrl> = Vec::new();
            proof {
                assert(url_views(empty@) =~= Seq::<Seq<char>>::empty());
            }
            empty
        },
        VerificationMode::TemporalComparison => urls,
    }
}

/// Turn parsed options into the runtime command and output path. `stdin` is what was read
/// from standard input for a `-` query.
pub fn convert_command(command: Command, verification: VerificationMode, stdin: &[u8]) -> (r: Result<(InvocationCommand, Option<String>), AgyError>)
    ensures
        converts_to(command, verification, stdin@, r),
{
    match command {
        Command::Status(output) => Ok((InvocationCommand::Status, output.output)),
        Command::Models(output) => Ok((InvocationCommand::Models, output.output)),
        Command::Search(arguments) => {
            let ghost a = arguments;
            let source_urls = arguments.source_urls;
            let source_restriction = match restriction_from(arguments.domains, &source_urls) {
                Ok(r) => r,
                Err(e) => {
                    return Err(e);
                },
            };
            let temporal_urls = temporal_source_urls(verification, source_urls);
            let temporal_contract = match TemporalContract::parse(verification, arguments.scopes, temporal_urls, arguments.cutoff) {
                Ok(c) => c,
                Err(e) => {
                    return Err(e);
                },
            };
            let query = match resolve_query(arguments.query, stdin) {
                Ok(q) => q,
                Err(e) => {
                    return Err(e);
                },
            };
            let request = SearchRequest {
                query,
                source_policy: SourcePolicy::PrimaryFirst,
                scope_policy: ScopePolicy::CompleteRequestedScope,
                date_policy: DatePolicy::ExplicitSourceOnly,
                verification,
                temporal_contract,
                source_restriction,
                max_results: arguments.max_results,
                country: arguments.country,
                max_tokens_per_page: arguments.max_tokens_per_page,
            };
            proof {
                assert(search_request_of(request, a, verification, stdin@));
            }
            Ok((InvocationCommand::Content(Box::new(ContentRequest::Search(request))), arguments.output.output))
        },
        Command::Extract(arguments) => {
            let request = ExtractRequest { urls: arguments.urls, query: arguments.query };
            Ok((InvocationCommand::Content(Box::new(ContentRequest::Extract(request))), arguments.output.output))
        },
        Command::SiteMap(arguments) => {
            let request = MapRequest {
                url: arguments.url,
                limit: arguments.limit,
                instructions: arguments.instructions,
                allow_external: arguments.allow_external,
            };
            Ok((InvocationCommand::Content(Box::new(ContentRequest::SiteMap(request))), arguments.output.output))
        },
        Command::Crawl(arguments) => {
            let request = CrawlRequest {
                url: arguments.url,
                limit: arguments.limit,
                instructions: arguments.instructions,
                allow_external: arguments.allow_external,
            };
            Ok((InvocationCommand::Content(Box::new(ContentRequest::Crawl(request))), arguments.output.output))
        },
        Command::Research(arguments) => {
            let ghost a = arguments;
            let source_urls = arguments.source_urls;
            let source_restriction = match restriction_from(arguments.domains, &source_urls) {
                Ok(r) => r,
                Err(e) => {
                    return Err(e);
                },
            };
            let temporal_urls = temporal_source_urls(verification, source_urls);
            let temporal_contract = match TemporalContract::parse(verification, arguments.scopes, temporal_urls, arguments.cutoff) {
                Ok(c) => c,
                Err(e) => {
                    return Err(e);
                },
            };
            let query = match resolve_query(arguments.query, stdin) {
                Ok(q) => q,
                Err(e) => {
                    return Err(e);
                },
            };
            let request = ResearchRequest {
                query,
                source_policy: SourcePolicy::PrimaryFirst,
                scope_policy: ScopePolicy::CompleteRequestedScope,
                date_policy: DatePolicy::ExplicitSourceOnly,
                verification,
                temporal_contract,
                source_restriction,
                max_sources: arguments.max_sources,
                tool_call_budget: ResearchAttemptBudget::from_max_sources(arguments.max_sources),
            };
            proof {
                assert(research_request_of(request, a, verification, stdin@));
            }
            Ok((InvocationCommand::Content(Box::new(ContentRequest::Research(request))), arguments.output.output))
        },
    }
}

/// The caller's Antigravity executable is not blank.
pub open spec fn executable_named(path: Seq<char>) -> bool {
    non_empty_text(path)
}

impl Cli {
    /// Validate parsed options into one runtime invocation. `stdin` is what was read from
    /// standard input for a `-` query. The executable path is kept as given; making a
    /// relative path absolute is left to the caller, which knows the working directory.
    pub fn into_invocation(self, stdin: &[u8]) -> (r: Result<Invocation, AgyError>)
        ensures
            match r {
                Ok(inv) => {
                    &&& model_effort_agrees(
                        match self.model { Some(m) => slug_effort(m@), None => None },
                        self.effort,
                    )
                    &&& converts_to(self.command, self.verification, stdin@, Ok((inv.command, inv.output)))
                    &&& executable_named(self.agy_path@)
                    &&& inv.agy_path == self.agy_path
                    &&& inv.model == self.model
                    &&& inv.effort == self.effort
                    &&& inv.timeout == self.timeout
                },
                Err(e) => e == AgyError::InvalidCommand && (!model_effort_agrees(
                    match self.model { Some(m) => slug_effort(m@), None => None },
                    self.effort,
                ) || converts_to(self.command, self.verification, stdin@, Err(e))
                    || !executable_named(self.agy_path@)),
            },
    {
        let model_effort = match &self.model {
            Some(m) => model_effort_suffix(m.as_str()),
            None => None,
        };
        match validate_model_effort(model_effort, self.effort) {
            Ok(()) => {},
            Err(e) => {
                return Err(e);
            },
        }
        let (command, output) = match convert_command(self.command, self.verification, stdin) {
            Ok(c) => c,
            Err(e) => {
                return Err(e);
            },
        };
        if parse_non_empty_text(self.agy_path.as_str()).is_none() {
            return Err(AgyError::InvalidCommand);
        }
        Ok(Invocation {
            agy_path: self.agy_path,
            model: self.model,
            effort: self.effort,
            timeout: self.timeout,
            command,
            output,
        })
    }
}

} // verus!
