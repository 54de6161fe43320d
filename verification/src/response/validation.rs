//! Cross-field validation for parsed response documents.

use vstd::prelude::*;

use super::collection_validation::{
    audit_outcome, bounded, distinct, evidence_audit, ref_views, unique, within,
};
use super::public_dates::{provenance_ok, syntax_ok, validate_standard_provenance, validate_syntax};
use super::research_validation::{self, research_ok, src_urls, web_source_urls};
use crate::error::AgyError;
use crate::http_url::{url_kind, HttpUrl, SourceUrlKind};
use crate::response_models::{
    crawl_views, extract_views, link_views, source_views, CrawlPage, DocumentView,
    EvidenceAudit, ExtractPage, LinkView, MapLink, PageView, ResponseDocument, WebSource,
};
use crate::source_restriction::{restriction_allows, SourceRestriction};
use crate::types::VerificationMode;

verus! {

/// The URLs of pages.
pub open spec fn page_urls(p: Seq<PageView>) -> Seq<Seq<char>> {
    Seq::new(p.len(), |i: int| p[i].url)
}

/// The URLs of links.
pub open spec fn link_urls(p: Seq<LinkView>) -> Seq<Seq<char>> {
    Seq::new(p.len(), |i: int| p[i].url)
}

/// Result URLs: 1 to `maximum` of them, all direct, none twice.
pub open spec fn direct_unique(urls: Seq<Seq<char>>, maximum: nat) -> bool {
    &&& within(urls.len(), maximum)
    &&& forall|i: int| 0 <= i < urls.len() ==> url_kind(#[trigger] urls[i]) == SourceUrlKind::Direct
    &&& distinct(urls)
}

/// What a returned document must satisfy on its own.
pub open spec fn document_ok(d: DocumentView) -> bool {
    match d {
        DocumentView::Search { audit, results } => direct_unique(src_urls(results), 20) && syntax_ok(results)
            && audit_outcome(audit, src_urls(results)) is Ok,
        DocumentView::Extract(pages) => direct_unique(page_urls(pages), 20),
        DocumentView::SiteMap { results, .. } => direct_unique(link_urls(results), 100),
        DocumentView::Crawl { results, .. } => direct_unique(page_urls(results), 50),
        DocumentView::Research { audit, findings, sources, .. } => research_ok(audit, findings, sources),
        DocumentView::Status { .. } | DocumentView::Models(_) => true,
    }
}

/// Check result URLs: bounded, direct and unique.
pub fn validate_urls(urls: &Vec<&HttpUrl>, maximum: usize) -> (r: Result<(), AgyError>)
    ensures
        r is Ok <==> direct_unique(ref_views(urls@), maximum as nat),
        r matches Err(e) ==> e == AgyError::OutputInvalid,
{
    let ghost uv = ref_views(urls@);
    if bounded(urls.len(), maximum).is_err() {
        return Err(AgyError::OutputInvalid);
    }
    let mut i: usize = 0;
    while i < urls.len()
        invariant
            uv == ref_views(urls@),
            i <= urls@.len(),
            forall|k: int| 0 <= k < i ==> url_kind(#[trigger] uv[k]) == SourceUrlKind::Direct,
        decreases urls@.len() - i,
    {
        if urls[i].source_kind() != SourceUrlKind::Direct {
            proof {
                assert(url_kind(uv[i as int]) != SourceUrlKind::Direct);
            }
            return Err(AgyError::OutputInvalid);
        }
        i = i + 1;
    }
    unique(urls)
}

/// Every URL lies within the caller's restriction.
pub fn validate_source_restriction(restriction: &SourceRestriction, urls: &Vec<&HttpUrl>) -> (r: Result<(), AgyError>)
    ensures
        r is Ok <==> forall|i: int| 0 <= i < urls@.len() ==> restriction_allows(restriction@, #[trigger] ref_views(urls@)[i]),
        r matches Err(e) ==> e == AgyError::OutputInvalid,
{
    let ghost uv = ref_views(urls@);
    let mut i: usize = 0;
    while i < urls.len()
        invariant
            uv == ref_views(urls@),
            i <= urls@.len(),
            forall|k: int| 0 <= k < i ==> restriction_allows(restriction@, #[trigger] uv[k]),
        decreases urls@.len() - i,
    {
        if !restriction.allows(urls[i]) {
            proof {
                assert(!restriction_allows(restriction@, uv[i as int]));
            }
            return Err(AgyError::OutputInvalid);
        }
        i = i + 1;
    }
    Ok(())
}

/// Standard requests need every public date bound by the audit; temporal comparisons check
/// their dates elsewhere.
pub fn validate_public_dates_for_request(verification: VerificationMode, sources: &Vec<WebSource>, audit: &EvidenceAudit) -> (r: Result<(), AgyError>)
    ensures
        r is Ok <==> (verification == VerificationMode::TemporalComparison || provenance_ok(source_views(sources@), audit@)),
        r matches Err(e) ==> e == AgyError::OutputInvalid,
{
    match verification {
        VerificationMode::Standard => validate_standard_provenance(sources, audit),
        VerificationMode::TemporalComparison => Ok(()),
    }
}

/// The URLs of pages, borrowed.
pub fn extract_urls(pages: &Vec<ExtractPage>) -> (r: Vec<&HttpUrl>)
    ensures
        ref_views(r@) == page_urls(extract_views(pages@)),
{
    let mut r: Vec<&HttpUrl> = Vec::new();
    let mut i: usize = 0;
    while i < pages.len()
        invariant
            i <= pages@.len(),
            ref_views(r@) == page_urls(extract_views(pages@)).take(i as int),
        decreases pages@.len() - i,
    {
        let ghost before = ref_views(r@);
        r.push(&pages[i].url);
        proof {
            assert(ref_views(r@) =~= before.push(pages@[i as int].url@));
            assert(page_urls(extract_views(pages@)).take(i + 1) =~= page_urls(extract_views(pages@)).take(i as int).push(pages@[i as int].url@));
        }
        i = i + 1;
    }
    proof {
        assert(page_urls(extract_views(pages@)).take(i as int) =~= page_urls(extract_views(pages@)));
    }
    r
}

/// The URLs of crawled pages, borrowed.
pub fn crawl_urls(pages: &Vec<CrawlPage>) -> (r: Vec<&HttpUrl>)
    ensures
        ref_views(r@) == page_urls(crawl_views(pages@)),
{
    let mut r: Vec<&HttpUrl> = Vec::new();
    let mut i: usize = 0;
    while i < pages.len()
        invariant
            i <= pages@.len(),
            ref_views(r@) == page_urls(crawl_views(pages@)).take(i as int),
        decreases pages@.len() - i,
    {
        let ghost before = ref_views(r@);
        r.push(&pages[i].url);
        proof {
            assert(ref_views(r@) =~= before.push(pages@[i as int].url@));
            assert(page_urls(crawl_views(pages@)).take(i + 1) =~= page_urls(crawl_views(pages@)).take(i as int).push(pages@[i as int].url@));
        }
        i = i + 1;
    }
    proof {
        assert(page_urls(crawl_views(pages@)).take(i as int) =~= page_urls(crawl_views(pages@)));
    }
    r
}

/// The URLs of links, borrowed.
pub fn map_urls(links: &Vec<MapLink>) -> (r: Vec<&HttpUrl>)
    ensures
        ref_views(r@) == link_urls(link_views(links@)),
{
    let mut r: Vec<&HttpUrl> = Vec::new();
    let mut i: usize = 0;
    while i < links.len()
        invariant
            i <= links@.len(),
            ref_views(r@) == link_urls(link_views(links@)).take(i as int),
        decreases links@.len() - i,
    {
        let ghost before = ref_views(r@);
        r.push(&links[i].url);
        proof {
            assert(ref_views(r@) =~= before.push(links@[i as int].url@));
            assert(link_urls(link_views(links@)).take(i + 1) =~= link_urls(link_views(links@)).take(i as int).push(links@[i as int].url@));
        }
        i = i + 1;
    }
    proof {
        assert(link_urls(link_views(links@)).take(i as int) =~= link_urls(link_views(links@)));
    }
    r
}

/// Check a returned document on its own.
pub fn document(response: &ResponseDocument) -> (r: Result<(), AgyError>)
    ensures
        r is Ok <==> document_ok(response@),
        r matches Err(e) ==> e == AgyError::OutputInvalid,
{
    match response {
        ResponseDocument::Search(value) => {
            let urls = web_source_urls(&value.results);
            if validate_urls(&urls, 20).is_err() || validate_syntax(&value.results).is_err() {
                return Err(AgyError::OutputInvalid);
            }
            match evidence_audit(&value.evidence_audit, &urls) {
                Ok(()) => Ok(()),
                Err(_) => Err(AgyError::OutputInvalid),
            }
        },
        ResponseDocument::Extract(value) => validate_urls(&extract_urls(&value.results), 20),
        ResponseDocument::SiteMap(value) => validate_urls(&map_urls(&value.results), 100),
        ResponseDocument::Crawl(value) => validate_urls(&crawl_urls(&value.results), 50),
        ResponseDocument::Research(value) => research_validation::validate(value),
        ResponseDocument::Status(_) | ResponseDocument::Models(_) => Ok(()),
    }
}

impl ResponseDocument {
    /// Check the document on its own.
    pub fn validate(&self) -> (r: Result<(), AgyError>)
        ensures
            r is Ok <==> document_ok(self@),
            r matches Err(e) ==> e == AgyError::OutputInvalid,
    {
        document(self)
    }
}

} // verus!
