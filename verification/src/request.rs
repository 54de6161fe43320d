//! Typed request documents sent to Antigravity.

use vstd::prelude::*;
use crate::http_url::HttpUrl;
use crate::research_policy::{
    exact_scope_query, PolicyView, RequiredSearchQuery, ResearchToolBudget, ResearchToolPolicy,
};
use crate::source_restriction::{domain_views, RestrictionView, SourceDomain, SourceRestriction};
use crate::temporal_contract::{ContractView, TemporalContract};
use crate::types::{DatePolicy, Operation, ScopePolicy, SourcePolicy, VerificationMode};

verus! {

/// The domains a restriction names; none without one.
pub open spec fn restriction_domains(r: RestrictionView) -> Seq<Seq<char>> {
    match r {
        RestrictionView::Allowlist { domains, .. } => domains,
        RestrictionView::Unrestricted => Seq::empty(),
    }
}

/// The text of an optional string.
pub open spec fn text_option(o: Option<String>) -> Option<Seq<char>> {
    match o {
        Some(s) => Some(s@),
        None => None,
    }
}

/// The view of an optional contract.
pub open spec fn contract_option(o: Option<TemporalContract>) -> Option<ContractView> {
    match o {
        Some(c) => Some(c@),
        None => None,
    }
}

/// Copy an optional string.
pub fn clone_text_option(o: &Option<String>) -> (r: Option<String>)
    ensures
        text_option(r) == text_option(*o),
{
    match o {
        Some(s) => Some(s.clone()),
        None => None,
    }
}

/// Copy an optional contract.
fn clone_contract_option(o: &Option<TemporalContract>) -> (r: Option<TemporalContract>)
    ensures
        contract_option(r) == contract_option(*o),
{
    match o {
        Some(c) => Some(c.clone()),
        None => None,
    }
}

/// How many research-tool attempts a research run may make.
#[derive(Clone, Copy, Debug, PartialEq, Eq, Structural)]
pub struct ResearchAttemptBudget {
    pub attempts: u16,
}

/// The attempts a research run for `max_sources` sources may make: one per source and
/// two more for discovery, saturating at the largest count.
pub open spec fn attempts_for_sources(max_sources: u16) -> u16 {
    if max_sources > u16::MAX - 2 {
        u16::MAX
    } else {
        (max_sources + 2) as u16
    }
}

impl ResearchAttemptBudget {
    /// The attempt budget for a requested number of sources.
    pub fn from_max_sources(max_sources: u16) -> (b: ResearchAttemptBudget)
        ensures
            b.attempts == attempts_for_sources(max_sources),
    {
        if max_sources > u16::MAX - 2 {
            ResearchAttemptBudget { attempts: u16::MAX }
        } else {
            ResearchAttemptBudget { attempts: max_sources + 2 }
        }
    }
}

/// A ranked web search.
#[derive(Debug)]
pub struct SearchRequest {
    pub query: String,
    pub source_policy: SourcePolicy,
    pub scope_policy: ScopePolicy,
    pub date_policy: DatePolicy,
    pub verification: VerificationMode,
    pub temporal_contract: Option<TemporalContract>,
    pub source_restriction: SourceRestriction,
    pub max_results: u16,
    pub country: Option<String>,
    pub max_tokens_per_page: Option<u32>,
}

/// A search for one scope of a temporal comparison.
#[derive(Debug)]
pub struct TemporalScopeRequest {
    pub query: String,
    pub source_policy: SourcePolicy,
    pub scope_policy: ScopePolicy,
    pub date_policy: DatePolicy,
    pub verification: VerificationMode,
    pub temporal_contract: Option<TemporalContract>,
    pub source_restriction: SourceRestriction,
    pub max_results: u16,
    pub country: Option<String>,
    pub max_tokens_per_page: Option<u32>,
    pub scope: String,
    pub required_search_query: RequiredSearchQuery,
}

/// `r` is the request for scope `scope` of the search `request`: the search's own fields, the
/// scope, and the exact-scope query that the scope's search must start from.
pub open spec fn is_scope_request(r: TemporalScopeRequest, request: SearchRequest, scope: Seq<char>) -> bool {
    &&& r.query@ == request.query@
    &&& r.source_policy == request.source_policy
    &&& r.scope_policy == request.scope_policy
    &&& r.date_policy == request.date_policy
    &&& r.verification == request.verification
    &&& contract_option(r.temporal_contract) == contract_option(request.temporal_contract)
    &&& r.source_restriction@ == request.source_restriction@
    &&& r.max_results == request.max_results
    &&& text_option(r.country) == text_option(request.country)
    &&& r.max_tokens_per_page == request.max_tokens_per_page
    &&& r.scope@ == scope
    &&& r.required_search_query@ == exact_scope_query(
        request.query@,
        scope,
        restriction_domains(request.source_restriction@),
        text_option(request.country),
    )
}

impl TemporalScopeRequest {
    /// The request for one scope of a search: the search's own fields, the scope, and the
    /// query the scope's search must start from.
    pub fn from_search(request: &SearchRequest, scope: String) -> (r: TemporalScopeRequest)
        ensures
            is_scope_request(r, *request, scope@),
            r.query@ == request.query@,
            r.source_policy == request.source_policy,
            r.scope_policy == request.scope_policy,
            r.date_policy == request.date_policy,
            r.verification == request.verification,
            contract_option(r.temporal_contract) == contract_option(request.temporal_contract),
            r.source_restriction@ == request.source_restriction@,
            r.max_results == request.max_results,
            text_option(r.country) == text_option(request.country),
            r.max_tokens_per_page == request.max_tokens_per_page,
            r.scope@ == scope@,
            r.required_search_query@ == exact_scope_query(
                request.query@,
                scope@,
                restriction_domains(request.source_restriction@),
                text_option(request.country),
            ),
    {
        let empty: Vec<SourceDomain> = Vec::new();
        let domains = match &request.source_restriction {
            SourceRestriction::Allowlist { domains, .. } => domains,
            SourceRestriction::Unrestricted => &empty,
        };
        let country = match &request.country {
            Some(c) => Some(c.as_str()),
            None => None,
        };
        proof {
            assert(domain_views(empty@) =~= Seq::<Seq<char>>::empty());
        }
        let required_search_query = RequiredSearchQuery::for_exact_scope(request.query.as_str(), scope.as_str(), domains, country);
        TemporalScopeRequest {
            query: request.query.clone(),
            source_policy: request.source_policy,
            scope_policy: request.scope_policy,
            date_policy: request.date_policy,
            verification: request.verification,
            temporal_contract: clone_contract_option(&request.temporal_contract),
            source_restriction: request.source_restriction.clone(),
            max_results: request.max_results,
            country: clone_text_option(&request.country),
            max_tokens_per_page: request.max_tokens_per_page,
            scope,
            required_search_query,
        }
    }
}

/// The research-tool policy of a scope's search: its first query is the required query, and
/// a restricted search keeps its restriction.
pub open spec fn scope_policy(r: TemporalScopeRequest) -> PolicyView {
    match r.source_restriction@ {
        RestrictionView::Unrestricted => PolicyView::ScopedTemporalSearch(r.required_search_query@),
        restriction => PolicyView::RestrictedScopedTemporalSearch {
            required_query: r.required_search_query@,
            restriction,
        },
    }
}

impl TemporalScopeRequest {
    /// The research-tool policy of the scope's search.
    pub fn tool_policy(&self) -> (p: ResearchToolPolicy)
        ensures
            p@ == scope_policy(*self),
    {
        match &self.source_restriction {
            SourceRestriction::Unrestricted => ResearchToolPolicy::ScopedTemporalSearch(self.required_search_query.clone()),
            SourceRestriction::Allowlist { .. } => ResearchToolPolicy::RestrictedScopedTemporalSearch {
                required_query: self.required_search_query.clone(),
                restriction: self.source_restriction.clone(),
            },
        }
    }
}

/// Whether a request is a standard search, the one run that retries with recovery prompts.
pub open spec fn retries_standard_search(r: ContentRequest) -> bool {
    r matches ContentRequest::Search(s) && s.verification == VerificationMode::Standard
}

/// Extraction of exact URLs.
#[derive(Debug)]
pub struct ExtractRequest {
    pub urls: Vec<HttpUrl>,
    pub query: Option<String>,
}

/// Discovery of the URLs beneath a site.
#[derive(Debug)]
pub struct MapRequest {
    pub url: HttpUrl,
    pub limit: u16,
    pub instructions: Option<String>,
    pub allow_external: bool,
}

/// A crawl of a site.
#[derive(Debug)]
pub struct CrawlRequest {
    pub url: HttpUrl,
    pub limit: u16,
    pub instructions: Option<String>,
    pub allow_external: bool,
}

/// A cited multi-source research answer.
#[derive(Debug)]
pub struct ResearchRequest {
    pub query: String,
    pub source_policy: SourcePolicy,
    pub scope_policy: ScopePolicy,
    pub date_policy: DatePolicy,
    pub verification: VerificationMode,
    pub temporal_contract: Option<TemporalContract>,
    pub source_restriction: SourceRestriction,
    pub max_sources: u16,
    pub tool_call_budget: ResearchAttemptBudget,
}

/// One content request of any operation.
#[derive(Debug)]
pub enum ContentRequest {
    Search(SearchRequest),
    Extract(ExtractRequest),
    SiteMap(MapRequest),
    Crawl(CrawlRequest),
    Research(ResearchRequest),
}

/// The operation a request performs.
pub open spec fn request_operation(r: ContentRequest) -> Operation {
    match r {
        ContentRequest::Search(_) => Operation::Search,
        ContentRequest::Extract(_) => Operation::Extract,
        ContentRequest::SiteMap(_) => Operation::SiteMap,
        ContentRequest::Crawl(_) => Operation::Crawl,
        ContentRequest::Research(_) => Operation::Research,
    }
}

/// A request's verification mode: only searches and research runs carry their own.
pub open spec fn request_verification(r: ContentRequest) -> VerificationMode {
    match r {
        ContentRequest::Search(s) => s.verification,
        ContentRequest::Research(s) => s.verification,
        _ => VerificationMode::Standard,
    }
}

/// A request's source restriction: only searches and research runs carry one.
pub open spec fn request_restriction(r: ContentRequest) -> RestrictionView {
    match r {
        ContentRequest::Search(s) => s.source_restriction@,
        ContentRequest::Research(s) => s.source_restriction@,
        _ => RestrictionView::Unrestricted,
    }
}

/// A request's research-tool budget.
pub open spec fn request_budget(r: ContentRequest) -> ResearchToolBudget {
    match r {
        ContentRequest::Search(s) => match s.verification {
            VerificationMode::Standard => ResearchToolBudget::StandardSearch,
            VerificationMode::TemporalComparison => ResearchToolBudget::TemporalSearch,
        },
        ContentRequest::Research(s) => ResearchToolBudget::Research(s.tool_call_budget.attempts),
        _ => ResearchToolBudget::Single,
    }
}

/// A request's research-tool policy: its budget, restricted where its sources are.
pub open spec fn request_policy(r: ContentRequest) -> PolicyView {
    match request_restriction(r) {
        RestrictionView::Unrestricted => PolicyView::Budget(request_budget(r)),
        restriction => PolicyView::Restricted { budget: request_budget(r), restriction },
    }
}

impl ContentRequest {
    /// Whether the request is a standard search, run with recovery retries.
    pub fn is_standard_search(&self) -> (r: bool)
        ensures
            r == retries_standard_search(*self),
    {
        match self {
            ContentRequest::Search(request) => request.verification == VerificationMode::Standard,
            _ => false,
        }
    }

    /// The operation the request performs.
    pub fn operation(&self) -> (op: Operation)
        ensures
            op == request_operation(*self),
    {
        match self {
            ContentRequest::Search(_) => Operation::Search,
            ContentRequest::Extract(_) => Operation::Extract,
            ContentRequest::SiteMap(_) => Operation::SiteMap,
            ContentRequest::Crawl(_) => Operation::Crawl,
            ContentRequest::Research(_) => Operation::Research,
        }
    }

    /// The request's verification mode.
    pub fn verification(&self) -> (v: VerificationMode)
        ensures
            v == request_verification(*self),
    {
        match self {
            ContentRequest::Search(request) => request.verification,
            ContentRequest::Research(request) => request.verification,
            ContentRequest::Extract(_) | ContentRequest::SiteMap(_) | ContentRequest::Crawl(_) => VerificationMode::Standard,
        }
    }

    /// The request's temporal contract: only searches and research runs carry one.
    pub fn temporal_contract(&self) -> (c: Option<&TemporalContract>)
        ensures
            c == match *self {
                ContentRequest::Search(s) => match s.temporal_contract {
                    Some(t) => Some(&t),
                    None => None,
                },
                ContentRequest::Research(s) => match s.temporal_contract {
                    Some(t) => Some(&t),
                    None => None,
                },
                _ => None::<&TemporalContract>,
            },
    {
        match self {
            ContentRequest::Search(request) => match &request.temporal_contract {
                Some(t) => Some(t),
                None => None,
            },
            ContentRequest::Research(request) => match &request.temporal_contract {
                Some(t) => Some(t),
                None => None,
            },
            ContentRequest::Extract(_) | ContentRequest::SiteMap(_) | ContentRequest::Crawl(_) => None,
        }
    }

    /// The request's source restriction.
    pub fn source_restriction(&self) -> (r: SourceRestriction)
        ensures
            r@ == request_restriction(*self),
    {
        match self {
            ContentRequest::Search(request) => request.source_restriction.clone(),
            ContentRequest::Research(request) => request.source_restriction.clone(),
            ContentRequest::Extract(_) | ContentRequest::SiteMap(_) | ContentRequest::Crawl(_) => SourceRestriction::Unrestricted,
        }
    }

    /// How many results a search may return; other requests set no such limit.
    pub fn search_result_limit(&self) -> (n: Option<u16>)
        ensures
            n == match *self {
                ContentRequest::Search(s) => Some(s.max_results),
                _ => None::<u16>,
            },
    {
        match self {
            ContentRequest::Search(request) => Some(request.max_results),
            ContentRequest::Extract(_) | ContentRequest::SiteMap(_) | ContentRequest::Crawl(_)
            | ContentRequest::Research(_) => None,
        }
    }

    /// The request's research-tool budget.
    pub fn tool_budget(&self) -> (b: ResearchToolBudget)
        ensures
            b == request_budget(*self),
    {
        match self {
            ContentRequest::Search(request) => match request.verification {
                VerificationMode::Standard => ResearchToolBudget::StandardSearch,
                VerificationMode::TemporalComparison => ResearchToolBudget::TemporalSearch,
            },
            ContentRequest::Research(request) => ResearchToolBudget::Research(request.tool_call_budget.attempts),
            ContentRequest::Extract(_) | ContentRequest::SiteMap(_) | ContentRequest::Crawl(_) => ResearchToolBudget::Single,
        }
    }

    /// The request's research-tool policy.
    pub fn tool_policy(&self) -> (p: ResearchToolPolicy)
        ensures
            p@ == request_policy(*self),
    {
        let budget = self.tool_budget();
        let restriction = self.source_restriction();
        match restriction {
            SourceRestriction::Unrestricted => ResearchToolPolicy::Budget(budget),
            SourceRestriction::Allowlist { .. } => ResearchToolPolicy::Restricted { budget, restriction },
        }
    }
}

} // verus!
