//! Every text field of a returned document that must hold text does.

use vstd::prelude::*;

use crate::response_models::{
    crawl_views, extract_views, finding_views, link_views, source_views, AuditView, DocumentView,
    EvidenceAudit, EvidenceView, FindingView, LinkView, PageView, ResearchFinding,
    ResponseDocument, SourceView, WebSource, CrawlPage, ExtractPage, MapLink,
};
use crate::types::{non_empty_text, parse_non_empty_text};

verus! {

/// An optional text is absent or holds text.
pub open spec fn optional_text(o: Option<Seq<char>>) -> bool {
    match o {
        Some(t) => non_empty_text(t),
        None => true,
    }
}

/// A web source has a title and a snippet.
pub open spec fn source_texts(s: SourceView) -> bool {
    non_empty_text(s.title) && non_empty_text(s.snippet)
}

/// A candidate has a scope and a claim, and its optional texts hold text.
pub open spec fn evidence_texts(e: EvidenceView) -> bool {
    &&& non_empty_text(e.scope)
    &&& non_empty_text(e.claim)
    &&& optional_text(e.value)
    &&& optional_text(e.source_date_text)
    &&& optional_text(e.evidence_excerpt)
}

/// An audit has a conclusion and its candidates have their texts.
pub open spec fn audit_texts(a: AuditView) -> bool {
    non_empty_text(a.conclusion) && forall|i: int| 0 <= i < a.candidates.len() ==> evidence_texts(#[trigger] a.candidates[i])
}

/// A page has a title and content.
pub open spec fn page_texts(p: PageView) -> bool {
    non_empty_text(p.title) && non_empty_text(p.content)
}

/// Every source has its texts.
pub open spec fn all_sources(v: Seq<SourceView>) -> bool {
    forall|i: int| 0 <= i < v.len() ==> source_texts(#[trigger] v[i])
}

/// Every page has its texts.
pub open spec fn all_pages(v: Seq<PageView>) -> bool {
    forall|i: int| 0 <= i < v.len() ==> page_texts(#[trigger] v[i])
}

/// Every link has a title.
pub open spec fn all_links(v: Seq<LinkView>) -> bool {
    forall|i: int| 0 <= i < v.len() ==> non_empty_text((#[trigger] v[i]).title)
}

/// Every finding has a title and a summary.
pub open spec fn all_findings(v: Seq<FindingView>) -> bool {
    forall|i: int| 0 <= i < v.len() ==> non_empty_text((#[trigger] v[i]).title) && non_empty_text(v[i].summary)
}

/// The texts every document must hold: titles, snippets, contents, summaries, and the audit's.
pub open spec fn document_texts(d: DocumentView) -> bool {
    match d {
        DocumentView::Search { audit, results } => audit_texts(audit) && all_sources(results),
        DocumentView::Extract(pages) => all_pages(pages),
        DocumentView::SiteMap { results, .. } => all_links(results),
        DocumentView::Crawl { results, .. } => all_pages(results),
        DocumentView::Research { audit, title, summary, findings, sources } => {
            &&& audit_texts(audit)
            &&& non_empty_text(title)
            &&& non_empty_text(summary)
            &&& all_findings(findings)
            &&& all_sources(sources)
        },
        DocumentView::Status { .. } | DocumentView::Models(_) => true,
    }
}

/// Whether a text is present.
fn present(s: &String) -> (r: bool)
    ensures
        r == non_empty_text(s@),
{
    parse_non_empty_text(s.as_str()).is_some()
}

/// Whether an optional text is absent or present.
fn optional_present(o: &Option<String>) -> (r: bool)
    ensures
        r == optional_text(crate::response_models::opt_str(*o)),
{
    match o {
        Some(s) => present(s),
        None => true,
    }
}

fn sources_present(v: &Vec<WebSource>) -> (r: bool)
    ensures
        r == all_sources(source_views(v@)),
{
    let ghost sv = source_views(v@);
    let mut i: usize = 0;
    while i < v.len()
        invariant
            sv == source_views(v@),
            i <= v@.len(),
            forall|k: int| 0 <= k < i ==> source_texts(#[trigger] sv[k]),
        decreases v@.len() - i,
    {
        if !(present(&v[i].title) && present(&v[i].snippet)) {
            proof {
                assert(!source_texts(sv[i as int]));
            }
            return false;
        }
        i = i + 1;
    }
    true
}

fn audit_present(a: &EvidenceAudit) -> (r: bool)
    ensures
        r == audit_texts(a@),
{
    if !present(&a.conclusion) {
        return false;
    }
    let ghost av = a@;
    let mut i: usize = 0;
    while i < a.candidates.len()
        invariant
            av == a@,
            non_empty_text(av.conclusion),
            i <= a.candidates@.len(),
            av.candidates.len() == a.candidates@.len(),
            forall|k: int| 0 <= k < i ==> evidence_texts(#[trigger] av.candidates[k]),
        decreases a.candidates@.len() - i,
    {
        let c = &a.candidates[i];
        proof {
            assert(av.candidates[i as int] == c@);
        }
        if !(present(&c.scope) && present(&c.claim) && optional_present(&c.value)
            && optional_present(&c.source_date_text) && optional_present(&c.evidence_excerpt)) {
            return false;
        }
        i = i + 1;
    }
    true
}

fn extract_present(v: &Vec<ExtractPage>) -> (r: bool)
    ensures
        r == all_pages(extract_views(v@)),
{
    let ghost pv = extract_views(v@);
    let mut i: usize = 0;
    while i < v.len()
        invariant
            pv == extract_views(v@),
            i <= v@.len(),
            forall|k: int| 0 <= k < i ==> page_texts(#[trigger] pv[k]),
        decreases v@.len() - i,
    {
        if !(present(&v[i].title) && present(&v[i].content)) {
            proof {
                assert(!page_texts(pv[i as int]));
            }
            return false;
        }
        i = i + 1;
    }
    true
}

fn crawl_present(v: &Vec<CrawlPage>) -> (r: bool)
    ensures
        r == all_pages(crawl_views(v@)),
{
    let ghost pv = crawl_views(v@);
    let mut i: usize = 0;
    while i < v.len()
        invariant
            pv == crawl_views(v@),
            i <= v@.len(),
            forall|k: int| 0 <= k < i ==> page_texts(#[trigger] pv[k]),
        decreases v@.len() - i,
    {
        if !(present(&v[i].title) && present(&v[i].content)) {
            proof {
                assert(!page_texts(pv[i as int]));
            }
            return false;
        }
        i = i + 1;
    }
    true
}

fn links_present(v: &Vec<MapLink>) -> (r: bool)
    ensures
        r == all_links(link_views(v@)),
{
    let ghost lv: Seq<LinkView> = link_views(v@);
    let mut i: usize = 0;
    while i < v.len()
        invariant
            lv == link_views(v@),
            i <= v@.len(),
            forall|k: int| 0 <= k < i ==> non_empty_text((#[trigger] lv[k]).title),
        decreases v@.len() - i,
    {
        if !present(&v[i].title) {
            proof {
                assert(!non_empty_text(lv[i as int].title));
            }
            return false;
        }
        i = i + 1;
    }
    true
}

fn findings_present(v: &Vec<ResearchFinding>) -> (r: bool)
    ensures
        r == all_findings(finding_views(v@)),
{
    let ghost fv: Seq<FindingView> = finding_views(v@);
    let mut i: usize = 0;
    while i < v.len()
        invariant
            fv == finding_views(v@),
            i <= v@.len(),
            forall|k: int| 0 <= k < i ==> non_empty_text((#[trigger] fv[k]).title) && non_empty_text(fv[k].summary),
        decreases v@.len() - i,
    {
        if !(present(&v[i].title) && present(&v[i].summary)) {
            proof {
                assert(!(non_empty_text(fv[i as int].title) && non_empty_text(fv[i as int].summary)));
            }
            return false;
        }
        i = i + 1;
    }
    true
}

impl ResponseDocument {
    /// Whether every text field that must hold text does.
    pub fn texts_are_present(&self) -> (r: bool)
        ensures
            r == document_texts(self@),
    {
        match self {
            ResponseDocument::Search(value) => audit_present(&value.evidence_audit) && sources_present(&value.results),
            ResponseDocument::Extract(value) => extract_present(&value.results),
            ResponseDocument::SiteMap(value) => links_present(&value.results),
            ResponseDocument::Crawl(value) => crawl_present(&value.results),
            ResponseDocument::Research(value) => audit_present(&value.evidence_audit) && present(&value.title)
                && present(&value.summary) && findings_present(&value.findings) && sources_present(&value.sources),
            ResponseDocument::Status(_) | ResponseDocument::Models(_) => true,
        }
    }
}

} // verus!
