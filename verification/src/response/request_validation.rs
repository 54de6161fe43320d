//! Checks of a returned document against the request it answers.

use vstd::prelude::*;

use super::collection_validation::{bounded, candidate_urls, ref_views, within};
use super::public_dates::provenance_ok;
use super::research_validation::{src_urls, web_source_urls};
use super::validation::{
    link_urls, page_urls, validate_public_dates_for_request, validate_source_restriction,
};
use crate::error::AgyError;
use crate::http_url::{origin, HttpUrl};
use crate::request::{ContentRequest, ResearchRequest, SearchRequest};
use crate::response_models::{
    source_views, AuditView, DocumentView, EvidenceAudit, FindingView, ResearchResponse,
    ResponseDocument, SearchResponse,
};
use crate::source_restriction::{restriction_allows, url_views, RestrictionView, SourceRestriction};
use crate::types::VerificationMode;

verus! {

/// Every URL lies within the restriction.
pub open spec fn all_allowed(r: RestrictionView, urls: Seq<Seq<char>>) -> bool {
    forall|i: int| 0 <= i < urls.len() ==> restriction_allows(r, #[trigger] urls[i])
}

/// Every citation of every finding lies within the restriction.
pub open spec fn citations_allowed(r: RestrictionView, findings: Seq<FindingView>) -> bool {
    forall|i: int, k: int| 0 <= i < findings.len() && 0 <= k < findings[i].citations.len()
        ==> restriction_allows(r, #[trigger] findings[i].citations[k])
}

/// A site answer: 1 to `limit` URLs, a base on the requested origin and, unless external
/// URLs are allowed, every URL on that origin too.
pub open spec fn site_ok(requested: Seq<char>, base: Seq<char>, urls: Seq<Seq<char>>, limit: nat, allow_external: bool) -> bool {
    &&& within(urls.len(), limit)
    &&& origin(requested) == origin(base)
    &&& (allow_external || forall|i: int| 0 <= i < urls.len() ==> origin(requested) == origin(#[trigger] urls[i]))
}

/// A search answer fits its request: 1 to `max_results` results, standard dates bound by the
/// audit, and every result and candidate within the restriction.
pub open spec fn search_fits(audit: AuditView, results: Seq<crate::response_models::SourceView>, request: SearchRequest) -> bool {
    &&& within(results.len(), request.max_results as nat)
    &&& (request.verification == VerificationMode::TemporalComparison || provenance_ok(results, audit))
    &&& all_allowed(request.source_restriction@, src_urls(results))
    &&& all_allowed(request.source_restriction@, candidate_urls(audit))
}

/// A research answer fits its request: 1 to `max_sources` sources, standard dates bound by
/// the audit, and every source, citation and candidate within the restriction.
pub open spec fn research_fits(
    audit: AuditView,
    findings: Seq<FindingView>,
    sources: Seq<crate::response_models::SourceView>,
    request: ResearchRequest,
) -> bool {
    &&& within(sources.len(), request.max_sources as nat)
    &&& (request.verification == VerificationMode::TemporalComparison || provenance_ok(sources, audit))
    &&& all_allowed(request.source_restriction@, src_urls(sources))
    &&& citations_allowed(request.source_restriction@, findings)
    &&& all_allowed(request.source_restriction@, candidate_urls(audit))
}

/// A document answers its request: the same operation, and the checks of that operation.
/// An extraction returns exactly the requested URLs, as a set.
pub open spec fn request_ok(d: DocumentView, request: ContentRequest) -> bool {
    match (d, request) {
        (DocumentView::Search { audit, results }, ContentRequest::Search(r)) => search_fits(audit, results, r),
        (DocumentView::Extract(pages), ContentRequest::Extract(r)) =>
            page_urls(pages).to_set() == url_views(r.urls@).to_set(),
        (DocumentView::SiteMap { base_url, results }, ContentRequest::SiteMap(r)) =>
            site_ok(r.url@, base_url, link_urls(results), r.limit as nat, r.allow_external),
        (DocumentView::Crawl { base_url, results }, ContentRequest::Crawl(r)) =>
            site_ok(r.url@, base_url, page_urls(results), r.limit as nat, r.allow_external),
        (DocumentView::Research { audit, findings, sources, .. }, ContentRequest::Research(r)) =>
            research_fits(audit, findings, sources, r),
        _ => false,
    }
}

/// What checking a document against its request gives: `OutputInvalid` where the document
/// does not answer the request; otherwise, for a search or research answer, the outcome of the
/// temporal verification of its evidence, and `Ok` for any other answer.
pub open spec fn request_outcome(d: DocumentView, request: ContentRequest, temporal: Result<(), AgyError>) -> Result<(), AgyError> {
    if !request_ok(d, request) {
        Err(AgyError::OutputInvalid)
    } else {
        match request {
            ContentRequest::Search(_) | ContentRequest::Research(_) => temporal,
            _ => Ok(()),
        }
    }
}

/// Check a site answer against its request.
pub fn validate_site(requested: &HttpUrl, base: &HttpUrl, urls: &Vec<&HttpUrl>, limit: usize, allow_external: bool) -> (r: Result<(), AgyError>)
    ensures
        r == (if site_ok(requested@, base@, ref_views(urls@), limit as nat, allow_external) {
            Ok(())
        } else {
            Err(AgyError::OutputInvalid)
        }),
{
    let ghost uv = ref_views(urls@);
    if bounded(urls.len(), limit).is_err() {
        return Err(AgyError::OutputInvalid);
    }
    if !requested.same_origin(base) {
        return Err(AgyError::OutputInvalid);
    }
    if !allow_external {
        let mut i: usize = 0;
        while i < urls.len()
            invariant
                uv == ref_views(urls@),
                i <= urls@.len(),
                uv.len() == urls@.len(),
                within(uv.len(), limit as nat),
                origin(requested@) == origin(base@),
                !allow_external,
                forall|k: int| 0 <= k < i ==> origin(requested@) == origin(#[trigger] uv[k]),
            decreases urls@.len() - i,
        {
            if !requested.same_origin(urls[i]) {
                proof {
                    assert(origin(requested@) != origin(uv[i as int]));
                }
                return Err(AgyError::OutputInvalid);
            }
            i = i + 1;
        }
    }
    Ok(())
}

/// The URLs the audit names, borrowed.
fn candidate_refs(audit: &EvidenceAudit) -> (r: Vec<&HttpUrl>)
    ensures
        ref_views(r@) == candidate_urls(audit@),
{
    let mut r: Vec<&HttpUrl> = Vec::new();
    let mut i: usize = 0;
    while i < audit.candidates.len()
        invariant
            i <= audit.candidates@.len(),
            audit@.candidates.len() == audit.candidates@.len(),
            forall|k: int| 0 <= k < audit.candidates@.len() ==> #[trigger] audit@.candidates[k].url == audit.candidates@[k].url@,
            ref_views(r@) == candidate_urls(audit@).take(i as int),
        decreases audit.candidates@.len() - i,
    {
        let ghost before = ref_views(r@);
        r.push(&audit.candidates[i].url);
        proof {
            assert(ref_views(r@) =~= before.push(audit.candidates@[i as int].url@));
            assert(candidate_urls(audit@).take(i + 1) =~= candidate_urls(audit@).take(i as int).push(audit@.candidates[i as int].url));
        }
        i = i + 1;
    }
    proof {
        assert(candidate_urls(audit@).take(i as int) =~= candidate_urls(audit@));
    }
    r
}

/// Check a search answer against its request. `temporal` is the outcome of the temporal
/// verification of the answer's audit and results; it is returned where every other check
/// passes.
pub fn validate_search_request(response: &SearchResponse, request: &SearchRequest, temporal: Result<(), AgyError>) -> (r: Result<(), AgyError>)
    ensures
        r == (if search_fits(response.evidence_audit@, source_views(response.results@), *request) {
            temporal
        } else {
            Err(AgyError::OutputInvalid)
        }),
{
    if bounded(response.results.len(), request.max_results as usize).is_err() {
        return Err(AgyError::OutputInvalid);
    }
    if validate_public_dates_for_request(request.verification, &response.results, &response.evidence_audit).is_err() {
        return Err(AgyError::OutputInvalid);
    }
    let results = web_source_urls(&response.results);
    if validate_source_restriction(&request.source_restriction, &results).is_err() {
        return Err(AgyError::OutputInvalid);
    }
    let candidates = candidate_refs(&response.evidence_audit);
    if validate_source_restriction(&request.source_restriction, &candidates).is_err() {
        return Err(AgyError::OutputInvalid);
    }
    temporal
}

/// Check that every citation lies within the restriction.
fn validate_citations(restriction: &SourceRestriction, response: &ResearchResponse) -> (r: Result<(), AgyError>)
    ensures
        r is Ok <==> citations_allowed(restriction@, crate::response_models::finding_views(response.findings@)),
        r matches Err(e) ==> e == AgyError::OutputInvalid,
{
    let ghost fv = crate::response_models::finding_views(response.findings@);
    let mut i: usize = 0;
    while i < response.findings.len()
        invariant
            fv == crate::response_models::finding_views(response.findings@),
            i <= response.findings@.len(),
            forall|a: int, k: int| 0 <= a < i && 0 <= k < fv[a].citations.len()
                ==> restriction_allows(restriction@, #[trigger] fv[a].citations[k]),
        decreases response.findings@.len() - i,
    {
        let finding = &response.findings[i];
        let mut c: usize = 0;
        while c < finding.citations.len()
            invariant
                fv == crate::response_models::finding_views(response.findings@),
                i < response.findings@.len(),
                *finding == response.findings@[i as int],
                c <= finding.citations@.len(),
                fv[i as int].citations.len() == finding.citations@.len(),
                forall|k: int| 0 <= k < c ==> restriction_allows(restriction@, #[trigger] fv[i as int].citations[k]),
            decreases finding.citations@.len() - c,
        {
            proof {
                assert(fv[i as int].citations[c as int] == finding.citations@[c as int]@);
            }
            if !restriction.allows(&finding.citations[c]) {
                return Err(AgyError::OutputInvalid);
            }
            c = c + 1;
        }
        i = i + 1;
    }
    Ok(())
}

/// Check a research answer against its request. `temporal` is the outcome of the temporal
/// verification of the answer's audit and sources; it is returned where every other check
/// passes.
pub fn validate_research_request(response: &ResearchResponse, request: &ResearchRequest, temporal: Result<(), AgyError>) -> (r: Result<(), AgyError>)
    ensures
        r == (if research_fits(
            response.evidence_audit@,
            crate::response_models::finding_views(response.findings@),
            source_views(response.sources@),
            *request,
        ) {
            temporal
        } else {
            Err(AgyError::OutputInvalid)
        }),
{
    if bounded(response.sources.len(), request.max_sources as usize).is_err() {
        return Err(AgyError::OutputInvalid);
    }
    if validate_public_dates_for_request(request.verification, &response.sources, &response.evidence_audit).is_err() {
        return Err(AgyError::OutputInvalid);
    }
    let sources = web_source_urls(&response.sources);
    if validate_source_restriction(&request.source_restriction, &sources).is_err() {
        return Err(AgyError::OutputInvalid);
    }
    if validate_citations(&request.source_restriction, response).is_err() {
        return Err(AgyError::OutputInvalid);
    }
    let candidates = candidate_refs(&response.evidence_audit);
    if validate_source_restriction(&request.source_restriction, &candidates).is_err() {
        return Err(AgyError::OutputInvalid);
    }
    temporal
}

} // verus!

verus! {

/// Whether `urls` holds `url`.
fn holds_url(urls: &Vec<HttpUrl>, url: &HttpUrl) -> (r: bool)
    ensures
        r == url_views(urls@).contains(url@),
{
    let ghost uv = url_views(urls@);
    let mut i: usize = 0;
    while i < urls.len()
        invariant
            uv == url_views(urls@),
            i <= urls@.len(),
            forall|k: int| 0 <= k < i ==> uv[k] != url@,
        decreases urls@.len() - i,
    {
        if urls[i].same_url(url) {
            proof {
                assert(uv[i as int] == url@);
            }
            return true;
        }
        i = i + 1;
    }
    false
}

/// Whether the extracted pages are exactly the requested URLs, as a set.
fn same_url_set(pages: &Vec<&HttpUrl>, requested: &Vec<HttpUrl>) -> (r: bool)
    ensures
        r == (ref_views(pages@).to_set() == url_views(requested@).to_set()),
{
    let ghost pv = ref_views(pages@);
    let ghost rv = url_views(requested@);
    let mut i: usize = 0;
    while i < pages.len()
        invariant
            pv == ref_views(pages@),
            rv == url_views(requested@),
            i <= pages@.len(),
            forall|k: int| 0 <= k < i ==> rv.contains(#[trigger] pv[k]),
        decreases pages@.len() - i,
    {
        if !holds_url(requested, pages[i]) {
            proof {
                assert(pv.to_set().contains(pv[i as int]));
                assert(!rv.to_set().contains(pv[i as int]));
            }
            return false;
        }
        i = i + 1;
    }
    let mut j: usize = 0;
    while j < requested.len()
        invariant
            pv == ref_views(pages@),
            rv == url_views(requested@),
            j <= requested@.len(),
            forall|k: int| 0 <= k < pages@.len() ==> rv.contains(#[trigger] pv[k]),
            forall|k: int| 0 <= k < j ==> pv.contains(#[trigger] rv[k]),
        decreases requested@.len() - j,
    {
        if !super::research_validation::holds(pages, &requested[j]) {
            proof {
                assert(rv[j as int] == requested@[j as int]@);
                assert(rv.to_set().contains(rv[j as int]));
                assert(!pv.to_set().contains(rv[j as int]));
            }
            return false;
        }
        j = j + 1;
    }
    proof {
        assert forall|x: Seq<char>| pv.to_set().contains(x) == rv.to_set().contains(x) by {
            if pv.contains(x) {
                let k = choose|k: int| 0 <= k < pv.len() && pv[k] == x;
                assert(rv.contains(pv[k]));
            }
            if rv.contains(x) {
                let k = choose|k: int| 0 <= k < rv.len() && rv[k] == x;
                assert(pv.contains(rv[k]));
            }
        }
        assert(pv.to_set() =~= rv.to_set());
    }
    true
}

/// Check a document against the request it answers. `temporal` is the outcome of the
/// temporal verification of a search or research answer's evidence.
pub fn request(response: &ResponseDocument, content: &ContentRequest, temporal: Result<(), AgyError>) -> (r: Result<(), AgyError>)
    ensures
        r == request_outcome(response@, *content, temporal),
{
    match response {
        ResponseDocument::Search(value) => match content {
            ContentRequest::Search(r) => validate_search_request(value, r, temporal),
            _ => Err(AgyError::OutputInvalid),
        },
        ResponseDocument::Extract(value) => match content {
            ContentRequest::Extract(r) => {
                let pages = super::validation::extract_urls(&value.results);
                if same_url_set(&pages, &r.urls) {
                    Ok(())
                } else {
                    Err(AgyError::OutputInvalid)
                }
            },
            _ => Err(AgyError::OutputInvalid),
        },
        ResponseDocument::SiteMap(value) => match content {
            ContentRequest::SiteMap(r) => validate_site(
                &r.url,
                &value.base_url,
                &super::validation::map_urls(&value.results),
                r.limit as usize,
                r.allow_external,
            ),
            _ => Err(AgyError::OutputInvalid),
        },
        ResponseDocument::Crawl(value) => match content {
            ContentRequest::Crawl(r) => validate_site(
                &r.url,
                &value.base_url,
                &super::validation::crawl_urls(&value.results),
                r.limit as usize,
                r.allow_external,
            ),
            _ => Err(AgyError::OutputInvalid),
        },
        ResponseDocument::Research(value) => match content {
            ContentRequest::Research(r) => validate_research_request(value, r, temporal),
            _ => Err(AgyError::OutputInvalid),
        },
        ResponseDocument::Status(_) | ResponseDocument::Models(_) => Err(AgyError::OutputInvalid),
    }
}

impl ResponseDocument {
    /// Check the document against the request it answers. `temporal` is the outcome of the
    /// temporal verification of a search or research answer's evidence, which is returned
    /// where every other check passes; other answers ignore it.
    pub fn validate_request(&self, request: &ContentRequest, temporal: Result<(), AgyError>) -> (r: Result<(), AgyError>)
        ensures
            r == request_outcome(self@, *request, temporal),
    {
        crate::response::request_validation::request(self, request, temporal)
    }
}

} // verus!
