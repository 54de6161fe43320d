//! Closed documents returned by the CLI.

use vstd::prelude::*;

use crate::calendar_date::CalendarDate;
use crate::http_url::HttpUrl;

verus! {

/// The text of an optional string.
pub open spec fn opt_str(o: Option<String>) -> Option<Seq<char>> {
    match o {
        Some(s) => Some(s@),
        None => None,
    }
}

/// The texts of strings.
pub open spec fn str_views(v: Seq<String>) -> Seq<Seq<char>> {
    Seq::new(v.len(), |i: int| v[i]@)
}

/// The texts of URLs.
pub open spec fn http_views(v: Seq<HttpUrl>) -> Seq<Seq<char>> {
    Seq::new(v.len(), |i: int| v[i]@)
}

/// A public web source.
pub struct SourceView {
    pub title: Seq<char>,
    pub url: Seq<char>,
    pub snippet: Seq<char>,
    pub date: Option<Seq<char>>,
    pub last_updated: Option<Seq<char>>,
}

/// A public web source.
#[derive(Debug)]
pub struct WebSource {
    pub title: String,
    pub url: HttpUrl,
    pub snippet: String,
    pub date: Option<String>,
    pub last_updated: Option<String>,
}

impl View for WebSource {
    type V = SourceView;

    open spec fn view(&self) -> SourceView {
        SourceView {
            title: self.title@,
            url: self.url@,
            snippet: self.snippet@,
            date: opt_str(self.date),
            last_updated: opt_str(self.last_updated),
        }
    }
}

/// One audited piece of scope evidence.
pub struct EvidenceView {
    pub scope: Seq<char>,
    pub claim: Seq<char>,
    pub url: Seq<char>,
    pub date: Option<Seq<char>>,
    pub value: Option<Seq<char>>,
    pub source_date_text: Option<Seq<char>>,
    pub evidence_excerpt: Option<Seq<char>>,
}

/// One audited piece of scope evidence.
#[derive(Debug)]
pub struct ScopeEvidence {
    pub scope: String,
    pub claim: String,
    pub url: HttpUrl,
    pub date: Option<CalendarDate>,
    pub value: Option<String>,
    pub source_date_text: Option<String>,
    pub evidence_excerpt: Option<String>,
}

impl View for ScopeEvidence {
    type V = EvidenceView;

    open spec fn view(&self) -> EvidenceView {
        EvidenceView {
            scope: self.scope@,
            claim: self.claim@,
            url: self.url@,
            date: match self.date {
                Some(d) => Some(d@),
                None => None,
            },
            value: opt_str(self.value),
            source_date_text: opt_str(self.source_date_text),
            evidence_excerpt: opt_str(self.evidence_excerpt),
        }
    }
}

/// The internal audit behind a response.
pub struct AuditView {
    pub candidates: Seq<EvidenceView>,
    pub coverage_complete: bool,
    pub conclusion: Seq<char>,
}

/// The internal audit behind a response.
#[derive(Debug)]
pub struct EvidenceAudit {
    pub candidates: Vec<ScopeEvidence>,
    pub coverage_complete: bool,
    pub conclusion: String,
}

/// The views of audit candidates.
pub open spec fn evidence_views(v: Seq<ScopeEvidence>) -> Seq<EvidenceView> {
    Seq::new(v.len(), |i: int| v[i]@)
}

impl View for EvidenceAudit {
    type V = AuditView;

    open spec fn view(&self) -> AuditView {
        AuditView {
            candidates: evidence_views(self.candidates@),
            coverage_complete: self.coverage_complete,
            conclusion: self.conclusion@,
        }
    }
}

/// An extracted or crawled page.
pub struct PageView {
    pub url: Seq<char>,
    pub title: Seq<char>,
    pub content: Seq<char>,
}

/// An extracted page.
#[derive(Debug)]
pub struct ExtractPage {
    pub url: HttpUrl,
    pub title: String,
    pub content: String,
}

impl View for ExtractPage {
    type V = PageView;

    open spec fn view(&self) -> PageView {
        PageView { url: self.url@, title: self.title@, content: self.content@ }
    }
}

/// A crawled page.
#[derive(Debug)]
pub struct CrawlPage {
    pub url: HttpUrl,
    pub title: String,
    pub content: String,
}

impl View for CrawlPage {
    type V = PageView;

    open spec fn view(&self) -> PageView {
        PageView { url: self.url@, title: self.title@, content: self.content@ }
    }
}

/// A discovered link.
pub struct LinkView {
    pub url: Seq<char>,
    pub title: Seq<char>,
    pub depth: u32,
}

/// A discovered link.
#[derive(Debug)]
pub struct MapLink {
    pub url: HttpUrl,
    pub title: String,
    pub depth: u32,
}

impl View for MapLink {
    type V = LinkView;

    open spec fn view(&self) -> LinkView {
        LinkView { url: self.url@, title: self.title@, depth: self.depth }
    }
}

/// A research finding and the sources it cites.
pub struct FindingView {
    pub title: Seq<char>,
    pub summary: Seq<char>,
    pub citations: Seq<Seq<char>>,
}

/// A research finding and the sources it cites.
#[derive(Debug)]
pub struct ResearchFinding {
    pub title: String,
    pub summary: String,
    pub citations: Vec<HttpUrl>,
}

impl View for ResearchFinding {
    type V = FindingView;

    open spec fn view(&self) -> FindingView {
        FindingView { title: self.title@, summary: self.summary@, citations: http_views(self.citations@) }
    }
}

/// A Search answer.
#[derive(Debug)]
pub struct SearchResponse {
    pub evidence_audit: EvidenceAudit,
    pub results: Vec<WebSource>,
}

/// An Extract answer.
#[derive(Debug)]
pub struct ExtractResponse {
    pub results: Vec<ExtractPage>,
}

/// A site-map answer.
#[derive(Debug)]
pub struct MapResponse {
    pub base_url: HttpUrl,
    pub results: Vec<MapLink>,
}

/// A Crawl answer.
#[derive(Debug)]
pub struct CrawlResponse {
    pub base_url: HttpUrl,
    pub results: Vec<CrawlPage>,
}

/// A Research answer.
#[derive(Debug)]
pub struct ResearchResponse {
    pub evidence_audit: EvidenceAudit,
    pub title: String,
    pub summary: String,
    pub findings: Vec<ResearchFinding>,
    pub sources: Vec<WebSource>,
}

/// A status answer.
#[derive(Debug)]
pub struct StatusResponse {
    pub available: bool,
    pub version: String,
    pub model_count: usize,
}

/// A models answer.
#[derive(Debug)]
pub struct ModelsResponse {
    pub models: Vec<String>,
}

/// Every document the CLI returns.
#[derive(Debug)]
pub enum ResponseDocument {
    Status(StatusResponse),
    Models(ModelsResponse),
    Search(SearchResponse),
    Extract(ExtractResponse),
    SiteMap(MapResponse),
    Crawl(CrawlResponse),
    Research(ResearchResponse),
}

/// The views of web sources.
pub open spec fn source_views(v: Seq<WebSource>) -> Seq<SourceView> {
    Seq::new(v.len(), |i: int| v[i]@)
}

/// The views of extracted pages.
pub open spec fn extract_views(v: Seq<ExtractPage>) -> Seq<PageView> {
    Seq::new(v.len(), |i: int| v[i]@)
}

/// The views of crawled pages.
pub open spec fn crawl_views(v: Seq<CrawlPage>) -> Seq<PageView> {
    Seq::new(v.len(), |i: int| v[i]@)
}

/// The views of links.
pub open spec fn link_views(v: Seq<MapLink>) -> Seq<LinkView> {
    Seq::new(v.len(), |i: int| v[i]@)
}

/// The views of findings.
pub open spec fn finding_views(v: Seq<ResearchFinding>) -> Seq<FindingView> {
    Seq::new(v.len(), |i: int| v[i]@)
}

/// A returned document.
#[allow(inconsistent_fields)]
pub enum DocumentView {
    Status { available: bool, version: Seq<char>, model_count: usize },
    Models(Seq<Seq<char>>),
    Search { audit: AuditView, results: Seq<SourceView> },
    Extract(Seq<PageView>),
    SiteMap { base_url: Seq<char>, results: Seq<LinkView> },
    Crawl { base_url: Seq<char>, results: Seq<PageView> },
    Research { audit: AuditView, title: Seq<char>, summary: Seq<char>, findings: Seq<FindingView>, sources: Seq<SourceView> },
}

impl View for ResponseDocument {
    type V = DocumentView;

    open spec fn view(&self) -> DocumentView {
        match self {
            ResponseDocument::Status(s) => DocumentView::Status {
                available: s.available,
                version: s.version@,
                model_count: s.model_count,
            },
            ResponseDocument::Models(m) => DocumentView::Models(str_views(m.models@)),
            ResponseDocument::Search(s) => DocumentView::Search {
                audit: s.evidence_audit@,
                results: source_views(s.results@),
            },
            ResponseDocument::Extract(e) => DocumentView::Extract(extract_views(e.results@)),
            ResponseDocument::SiteMap(m) => DocumentView::SiteMap {
                base_url: m.base_url@,
                results: link_views(m.results@),
            },
            ResponseDocument::Crawl(c) => DocumentView::Crawl {
                base_url: c.base_url@,
                results: crawl_views(c.results@),
            },
            ResponseDocument::Research(r) => DocumentView::Research {
                audit: r.evidence_audit@,
                title: r.title@,
                summary: r.summary@,
                findings: finding_views(r.findings@),
                sources: source_views(r.sources@),
            },
        }
    }
}

impl ResponseDocument {
    /// The status document: Antigravity is available, at `version`, with `model_count` models.
    pub fn status(version: String, model_count: usize) -> (d: ResponseDocument)
        ensures
            d@ == (DocumentView::Status { available: true, version: version@, model_count }),
    {
        ResponseDocument::Status(StatusResponse { available: true, version, model_count })
    }

    /// The models document.
    pub fn models(models: Vec<String>) -> (d: ResponseDocument)
        ensures
            d@ == DocumentView::Models(str_views(models@)),
    {
        ResponseDocument::Models(ModelsResponse { models })
    }
}

} // verus!
