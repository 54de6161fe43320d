//! URL traversal and replacement for structured response documents.

use vstd::prelude::*;

use crate::http_url::{url_kind, HttpUrl, SourceUrlKind};
use crate::response::collection_validation::{candidate_urls, ref_views};
use crate::response::research_validation::src_urls;
use crate::response::validation::{link_urls, page_urls};
use crate::response_models::{
    crawl_views, extract_views, finding_views, http_views, link_views, source_views,
    AuditView, CrawlPage, DocumentView, EvidenceAudit, EvidenceView, ExtractPage, FindingView, LinkView,
    MapLink, PageView, ResearchFinding, ResponseDocument, SourceView, WebSource,
};

verus! {

/// The URLs cited by findings, in order.
pub open spec fn citation_urls(f: Seq<FindingView>) -> Seq<Seq<char>>
    decreases f.len(),
{
    if f.len() == 0 {
        Seq::empty()
    } else {
        citation_urls(f.drop_last()) + f.last().citations
    }
}

/// Every URL a document names, in document order.
pub open spec fn doc_urls(d: DocumentView) -> Seq<Seq<char>> {
    match d {
        DocumentView::Search { audit, results } => src_urls(results) + candidate_urls(audit),
        DocumentView::Extract(pages) => page_urls(pages),
        DocumentView::SiteMap { base_url, results } => seq![base_url] + link_urls(results),
        DocumentView::Crawl { base_url, results } => seq![base_url] + page_urls(results),
        DocumentView::Research { audit, findings, sources, .. } => src_urls(sources) + citation_urls(findings)
            + candidate_urls(audit),
        DocumentView::Status { .. } | DocumentView::Models(_) => Seq::empty(),
    }
}

/// The grounding transports among `urls`, each once, in first-seen order.
pub open spec fn transports_first_seen(urls: Seq<Seq<char>>) -> Seq<Seq<char>>
    decreases urls.len(),
{
    if urls.len() == 0 {
        Seq::empty()
    } else {
        let seen = transports_first_seen(urls.drop_last());
        if url_kind(urls.last()) == SourceUrlKind::GroundingRedirect && !seen.contains(urls.last()) {
            seen.push(urls.last())
        } else {
            seen
        }
    }
}

/// `u`, or `to` when it is `from`.
pub open spec fn swap(u: Seq<char>, from: Seq<char>, to: Seq<char>) -> Seq<char> {
    if u == from {
        to
    } else {
        u
    }
}

/// Sources with their URLs swapped.
pub open spec fn swap_sources(s: Seq<SourceView>, from: Seq<char>, to: Seq<char>) -> Seq<SourceView> {
    Seq::new(s.len(), |i: int| SourceView { url: swap(s[i].url, from, to), ..s[i] })
}

/// Pages with their URLs swapped.
pub open spec fn swap_pages(s: Seq<PageView>, from: Seq<char>, to: Seq<char>) -> Seq<PageView> {
    Seq::new(s.len(), |i: int| PageView { url: swap(s[i].url, from, to), ..s[i] })
}

/// Links with their URLs swapped.
pub open spec fn swap_links(s: Seq<LinkView>, from: Seq<char>, to: Seq<char>) -> Seq<LinkView> {
    Seq::new(s.len(), |i: int| LinkView { url: swap(s[i].url, from, to), ..s[i] })
}

/// URLs swapped.
pub open spec fn swap_urls(s: Seq<Seq<char>>, from: Seq<char>, to: Seq<char>) -> Seq<Seq<char>> {
    Seq::new(s.len(), |i: int| swap(s[i], from, to))
}

/// Findings with their citations swapped.
pub open spec fn swap_findings(s: Seq<FindingView>, from: Seq<char>, to: Seq<char>) -> Seq<FindingView> {
    Seq::new(s.len(), |i: int| FindingView { citations: swap_urls(s[i].citations, from, to), ..s[i] })
}

/// An audit with its candidates' URLs swapped.
pub open spec fn swap_audit(a: AuditView, from: Seq<char>, to: Seq<char>) -> AuditView {
    AuditView {
        candidates: Seq::new(a.candidates.len(), |i: int| EvidenceView { url: swap(a.candidates[i].url, from, to), ..a.candidates[i] }),
        ..a
    }
}

/// A document with every URL equal to `from` replaced by `to`, and nothing else changed.
pub open spec fn swapped_doc(d: DocumentView, from: Seq<char>, to: Seq<char>) -> DocumentView {
    match d {
        DocumentView::Search { audit, results } => DocumentView::Search {
            audit: swap_audit(audit, from, to),
            results: swap_sources(results, from, to),
        },
        DocumentView::Extract(pages) => DocumentView::Extract(swap_pages(pages, from, to)),
        DocumentView::SiteMap { base_url, results } => DocumentView::SiteMap {
            base_url: swap(base_url, from, to),
            results: swap_links(results, from, to),
        },
        DocumentView::Crawl { base_url, results } => DocumentView::Crawl {
            base_url: swap(base_url, from, to),
            results: swap_pages(results, from, to),
        },
        DocumentView::Research { audit, title, summary, findings, sources } => DocumentView::Research {
            audit: swap_audit(audit, from, to),
            title,
            summary,
            findings: swap_findings(findings, from, to),
            sources: swap_sources(sources, from, to),
        },
        DocumentView::Status { .. } | DocumentView::Models(_) => d,
    }
}

/// Append borrowed URLs of sources.
fn push_source_urls<'a>(out: &mut Vec<&'a HttpUrl>, sources: &'a Vec<WebSource>)
    ensures
        ref_views(final(out)@) == ref_views(old(out)@) + src_urls(source_views(sources@)),
{
    let ghost start = ref_views(out@);
    let mut i: usize = 0;
    while i < sources.len()
        invariant
            i <= sources@.len(),
            ref_views(out@) == start + src_urls(source_views(sources@)).take(i as int),
        decreases sources@.len() - i,
    {
        let ghost before = ref_views(out@);
        out.push(&sources[i].url);
        proof {
            assert(ref_views(out@) =~= before.push(sources@[i as int].url@));
            assert(src_urls(source_views(sources@)).take(i + 1) =~= src_urls(source_views(sources@)).take(i as int).push(sources@[i as int].url@));
        }
        i = i + 1;
    }
    proof {
        assert(src_urls(source_views(sources@)).take(i as int) =~= src_urls(source_views(sources@)));
    }
}

/// Append borrowed URLs of audit candidates.
fn push_candidate_urls<'a>(out: &mut Vec<&'a HttpUrl>, audit: &'a EvidenceAudit)
    ensures
        ref_views(final(out)@) == ref_views(old(out)@) + candidate_urls(audit@),
{
    let ghost start = ref_views(out@);
    let ghost cu = candidate_urls(audit@);
    let mut i: usize = 0;
    while i < audit.candidates.len()
        invariant
            cu == candidate_urls(audit@),
            i <= audit.candidates@.len(),
            ref_views(out@) == start + cu.take(i as int),
        decreases audit.candidates@.len() - i,
    {
        let ghost before = ref_views(out@);
        out.push(&audit.candidates[i].url);
        proof {
            assert(ref_views(out@) =~= before.push(audit.candidates@[i as int].url@));
            assert(cu.take(i + 1) =~= cu.take(i as int).push(audit.candidates@[i as int].url@));
        }
        i = i + 1;
    }
    proof {
        assert(cu.take(i as int) =~= cu);
    }
}

/// Append borrowed URLs.
fn push_urls<'a>(out: &mut Vec<&'a HttpUrl>, urls: &'a Vec<HttpUrl>)
    ensures
        ref_views(final(out)@) == ref_views(old(out)@) + http_views(urls@),
{
    let ghost start = ref_views(out@);
    let mut i: usize = 0;
    while i < urls.len()
        invariant
            i <= urls@.len(),
            ref_views(out@) == start + http_views(urls@).take(i as int),
        decreases urls@.len() - i,
    {
        let ghost before = ref_views(out@);
        out.push(&urls[i]);
        proof {
            assert(ref_views(out@) =~= before.push(urls@[i as int]@));
            assert(http_views(urls@).take(i + 1) =~= http_views(urls@).take(i as int).push(urls@[i as int]@));
        }
        i = i + 1;
    }
    proof {
        assert(http_views(urls@).take(i as int) =~= http_views(urls@));
    }
}

/// Append borrowed URLs cited by findings.
fn push_citation_urls<'a>(out: &mut Vec<&'a HttpUrl>, findings: &'a Vec<ResearchFinding>)
    ensures
        ref_views(final(out)@) == ref_views(old(out)@) + citation_urls(finding_views(findings@)),
{
    let ghost start = ref_views(out@);
    let ghost fv = finding_views(findings@);
    let mut i: usize = 0;
    proof {
        assert(fv.take(0) =~= Seq::<FindingView>::empty());
        assert(start + citation_urls(fv.take(0)) =~= start);
    }
    while i < findings.len()
        invariant
            fv == finding_views(findings@),
            i <= findings@.len(),
            ref_views(out@) == start + citation_urls(fv.take(i as int)),
        decreases findings@.len() - i,
    {
        proof {
            assert(fv.take(i + 1).drop_last() =~= fv.take(i as int));
            assert(fv.take(i + 1).last() == findings@[i as int]@);
        }
        push_urls(out, &findings[i].citations);
        proof {
            assert(start + citation_urls(fv.take(i + 1)) =~= start + citation_urls(fv.take(i as int)) + http_views(findings@[i as int].citations@));
        }
        i = i + 1;
    }
    proof {
        assert(fv.take(i as int) =~= fv);
    }
}

/// Append borrowed URLs of pages.
fn push_extract_urls<'a>(out: &mut Vec<&'a HttpUrl>, pages: &'a Vec<ExtractPage>)
    ensures
        ref_views(final(out)@) == ref_views(old(out)@) + page_urls(extract_views(pages@)),
{
    let ghost start = ref_views(out@);
    let mut i: usize = 0;
    while i < pages.len()
        invariant
            i <= pages@.len(),
            ref_views(out@) == start + page_urls(extract_views(pages@)).take(i as int),
        decreases pages@.len() - i,
    {
        let ghost before = ref_views(out@);
        out.push(&pages[i].url);
        proof {
            assert(ref_views(out@) =~= before.push(pages@[i as int].url@));
            assert(page_urls(extract_views(pages@)).take(i + 1) =~= page_urls(extract_views(pages@)).take(i as int).push(pages@[i as int].url@));
        }
        i = i + 1;
    }
    proof {
        assert(page_urls(extract_views(pages@)).take(i as int) =~= page_urls(extract_views(pages@)));
    }
}

/// Append borrowed URLs of crawled pages.
fn push_crawl_urls<'a>(out: &mut Vec<&'a HttpUrl>, pages: &'a Vec<CrawlPage>)
    ensures
        ref_views(final(out)@) == ref_views(old(out)@) + page_urls(crawl_views(pages@)),
{
    let ghost start = ref_views(out@);
    let mut i: usize = 0;
    while i < pages.len()
        invariant
            i <= pages@.len(),
            ref_views(out@) == start + page_urls(crawl_views(pages@)).take(i as int),
        decreases pages@.len() - i,
    {
        let ghost before = ref_views(out@);
        out.push(&pages[i].url);
        proof {
            assert(ref_views(out@) =~= before.push(pages@[i as int].url@));
            assert(page_urls(crawl_views(pages@)).take(i + 1) =~= page_urls(crawl_views(pages@)).take(i as int).push(pages@[i as int].url@));
        }
        i = i + 1;
    }
    proof {
        assert(page_urls(crawl_views(pages@)).take(i as int) =~= page_urls(crawl_views(pages@)));
    }
}

/// Append borrowed URLs of links.
fn push_link_urls<'a>(out: &mut Vec<&'a HttpUrl>, links: &'a Vec<MapLink>)
    ensures
        ref_views(final(out)@) == ref_views(old(out)@) + link_urls(link_views(links@)),
{
    let ghost start = ref_views(out@);
    let mut i: usize = 0;
    while i < links.len()
        invariant
            i <= links@.len(),
            ref_views(out@) == start + link_urls(link_views(links@)).take(i as int),
        decreases links@.len() - i,
    {
        let ghost before = ref_views(out@);
        out.push(&links[i].url);
        proof {
            assert(ref_views(out@) =~= before.push(links@[i as int].url@));
            assert(link_urls(link_views(links@)).take(i + 1) =~= link_urls(link_views(links@)).take(i as int).push(links@[i as int].url@));
        }
        i = i + 1;
    }
    proof {
        assert(link_urls(link_views(links@)).take(i as int) =~= link_urls(link_views(links@)));
    }
}

impl ResponseDocument {
    /// Every URL the document names, in document order.
    pub fn all_urls(&self) -> (r: Vec<&HttpUrl>)
        ensures
            ref_views(r@) == doc_urls(self@),
    {
        let mut urls: Vec<&HttpUrl> = Vec::new();
        proof {
            assert(ref_views(urls@) =~= Seq::<Seq<char>>::empty());
        }
        match self {
            ResponseDocument::Search(value) => {
                push_source_urls(&mut urls, &value.results);
                push_candidate_urls(&mut urls, &value.evidence_audit);
            },
            ResponseDocument::Extract(value) => {
                push_extract_urls(&mut urls, &value.results);
            },
            ResponseDocument::SiteMap(value) => {
                urls.push(&value.base_url);
                push_link_urls(&mut urls, &value.results);
            },
            ResponseDocument::Crawl(value) => {
                urls.push(&value.base_url);
                push_crawl_urls(&mut urls, &value.results);
            },
            ResponseDocument::Research(value) => {
                push_source_urls(&mut urls, &value.sources);
                push_citation_urls(&mut urls, &value.findings);
                push_candidate_urls(&mut urls, &value.evidence_audit);
            },
            ResponseDocument::Status(_) | ResponseDocument::Models(_) => {},
        }
        proof {
            assert(ref_views(urls@) =~= doc_urls(self@));
        }
        urls
    }

    /// The grounding transports the document names, each once, in first-seen order.
    pub fn grounding_redirects(&self) -> (r: Vec<HttpUrl>)
        ensures
            http_views(r@) == transports_first_seen(doc_urls(self@)),
    {
        let urls = self.all_urls();
        let ghost uv = ref_views(urls@);
        let mut out: Vec<HttpUrl> = Vec::new();
        let mut i: usize = 0;
        proof {
            assert(uv.take(0) =~= Seq::<Seq<char>>::empty());
            assert(http_views(out@) =~= Seq::<Seq<char>>::empty());
        }
        while i < urls.len()
            invariant
                uv == ref_views(urls@),
                i <= urls@.len(),
                http_views(out@) == transports_first_seen(uv.take(i as int)),
            decreases urls@.len() - i,
        {
            proof {
                assert(uv.take(i + 1).drop_last() =~= uv.take(i as int));
                assert(uv.take(i + 1).last() == urls@[i as int]@);
            }
            let url = urls[i];
            if url.source_kind() == SourceUrlKind::GroundingRedirect {
                let mut seen = false;
                let mut k: usize = 0;
                while k < out.len()
                    invariant
                        k <= out@.len(),
                        seen == exists|j: int| 0 <= j < k && out@[j]@ == url@,
                    decreases out@.len() - k,
                {
                    if out[k].same_url(url) {
                        seen = true;
                    }
                    k = k + 1;
                }
                proof {
                    if seen {
                        let j = choose|j: int| 0 <= j < k && out@[j]@ == url@;
                        assert(http_views(out@)[j] == url@);
                    } else {
                        assert forall|j: int| 0 <= j < http_views(out@).len() implies http_views(out@)[j] != url@ by {
                            assert(http_views(out@)[j] == out@[j]@);
                        }
                    }
                }
                if !seen {
                    let ghost before = http_views(out@);
                    out.push(url.clone());
                    proof {
                        assert(http_views(out@) =~= before.push(url@));
                    }
                }
            }
            i = i + 1;
        }
        proof {
            assert(uv.take(i as int) =~= uv);
        }
        out
    }
}

} // verus!

verus! {

/// Replace, in sources, every URL equal to `from` by `to`.
fn swap_source_urls(sources: &mut Vec<WebSource>, from: &HttpUrl, to: &HttpUrl)
    ensures
        source_views(final(sources)@) == swap_sources(source_views(old(sources)@), from@, to@),
{
    let ghost start = source_views(sources@);
    let mut i: usize = 0;
    while i < sources.len()
        invariant
            start.len() == sources@.len(),
            i <= sources@.len(),
            forall|k: int| 0 <= k < i ==> (#[trigger] sources@[k])@ == (SourceView { url: swap(start[k].url, from@, to@), ..start[k] }),
            forall|k: int| i <= k < sources@.len() ==> (#[trigger] sources@[k])@ == start[k],
        decreases sources@.len() - i,
    {
        if sources[i].url.same_url(from) {
            sources[i].url = to.clone();
        }
        i = i + 1;
    }
    proof {
        assert(source_views(sources@) =~= swap_sources(start, from@, to@));
    }
}


/// Replace, in extracted pages, every URL equal to `from` by `to`.
fn swap_extract_urls(items: &mut Vec<ExtractPage>, from: &HttpUrl, to: &HttpUrl)
    ensures
        extract_views(final(items)@) == swap_pages(extract_views(old(items)@), from@, to@),
{
    let ghost start = extract_views(items@);
    let mut i: usize = 0;
    while i < items.len()
        invariant
            start.len() == items@.len(),
            i <= items@.len(),
            forall|k: int| 0 <= k < i ==> (#[trigger] items@[k])@ == (PageView { url: swap(start[k].url, from@, to@), ..start[k] }),
            forall|k: int| i <= k < items@.len() ==> (#[trigger] items@[k])@ == start[k],
        decreases items@.len() - i,
    {
        if items[i].url.same_url(from) {
            items[i].url = to.clone();
        }
        i = i + 1;
    }
    proof {
        assert(extract_views(items@) =~= swap_pages(start, from@, to@));
    }
}

/// Replace, in crawled pages, every URL equal to `from` by `to`.
fn swap_crawl_urls(items: &mut Vec<CrawlPage>, from: &HttpUrl, to: &HttpUrl)
    ensures
        crawl_views(final(items)@) == swap_pages(crawl_views(old(items)@), from@, to@),
{
    let ghost start = crawl_views(items@);
    let mut i: usize = 0;
    while i < items.len()
        invariant
            start.len() == items@.len(),
            i <= items@.len(),
            forall|k: int| 0 <= k < i ==> (#[trigger] items@[k])@ == (PageView { url: swap(start[k].url, from@, to@), ..start[k] }),
            forall|k: int| i <= k < items@.len() ==> (#[trigger] items@[k])@ == start[k],
        decreases items@.len() - i,
    {
        if items[i].url.same_url(from) {
            items[i].url = to.clone();
        }
        i = i + 1;
    }
    proof {
        assert(crawl_views(items@) =~= swap_pages(start, from@, to@));
    }
}

/// Replace, in links, every URL equal to `from` by `to`.
fn swap_link_urls(items: &mut Vec<MapLink>, from: &HttpUrl, to: &HttpUrl)
    ensures
        link_views(final(items)@) == swap_links(link_views(old(items)@), from@, to@),
{
    let ghost start = link_views(items@);
    let mut i: usize = 0;
    while i < items.len()
        invariant
            start.len() == items@.len(),
            i <= items@.len(),
            forall|k: int| 0 <= k < i ==> (#[trigger] items@[k])@ == (LinkView { url: swap(start[k].url, from@, to@), ..start[k] }),
            forall|k: int| i <= k < items@.len() ==> (#[trigger] items@[k])@ == start[k],
        decreases items@.len() - i,
    {
        if items[i].url.same_url(from) {
            items[i].url = to.clone();
        }
        i = i + 1;
    }
    proof {
        assert(link_views(items@) =~= swap_links(start, from@, to@));
    }
}

/// Replace, in an audit, every candidate URL equal to `from` by `to`.
fn swap_candidate_urls(audit: &mut EvidenceAudit, from: &HttpUrl, to: &HttpUrl)
    ensures
        final(audit)@ == swap_audit(old(audit)@, from@, to@),
{
    let ghost start = audit@;
    let mut i: usize = 0;
    while i < audit.candidates.len()
        invariant
            start.candidates.len() == audit.candidates@.len(),
            audit.coverage_complete == start.coverage_complete,
            audit.conclusion@ == start.conclusion,
            i <= audit.candidates@.len(),
            forall|k: int| 0 <= k < i ==> (#[trigger] audit.candidates@[k])@ == (EvidenceView { url: swap(start.candidates[k].url, from@, to@), ..start.candidates[k] }),
            forall|k: int| i <= k < audit.candidates@.len() ==> (#[trigger] audit.candidates@[k])@ == start.candidates[k],
        decreases audit.candidates@.len() - i,
    {
        if audit.candidates[i].url.same_url(from) {
            audit.candidates[i].url = to.clone();
        }
        i = i + 1;
    }
    proof {
        assert(audit@.candidates =~= swap_audit(start, from@, to@).candidates);
    }
}

/// Replace every URL equal to `from` by `to`.
fn swap_plain_urls(urls: &mut Vec<HttpUrl>, from: &HttpUrl, to: &HttpUrl)
    ensures
        http_views(final(urls)@) == swap_urls(http_views(old(urls)@), from@, to@),
{
    let ghost start = http_views(urls@);
    let mut i: usize = 0;
    while i < urls.len()
        invariant
            start.len() == urls@.len(),
            i <= urls@.len(),
            forall|k: int| 0 <= k < i ==> (#[trigger] urls@[k])@ == swap(start[k], from@, to@),
            forall|k: int| i <= k < urls@.len() ==> (#[trigger] urls@[k])@ == start[k],
        decreases urls@.len() - i,
    {
        if urls[i].same_url(from) {
            urls.set(i, to.clone());
        }
        i = i + 1;
    }
    proof {
        assert(http_views(urls@) =~= swap_urls(start, from@, to@));
    }
}

/// Replace, in findings, every cited URL equal to `from` by `to`.
fn swap_finding_urls(findings: &mut Vec<ResearchFinding>, from: &HttpUrl, to: &HttpUrl)
    ensures
        finding_views(final(findings)@) == swap_findings(finding_views(old(findings)@), from@, to@),
{
    let ghost start = finding_views(findings@);
    let mut i: usize = 0;
    while i < findings.len()
        invariant
            start.len() == findings@.len(),
            i <= findings@.len(),
            forall|k: int| 0 <= k < i ==> (#[trigger] findings@[k])@ == (FindingView { citations: swap_urls(start[k].citations, from@, to@), ..start[k] }),
            forall|k: int| i <= k < findings@.len() ==> (#[trigger] findings@[k])@ == start[k],
        decreases findings@.len() - i,
    {
        swap_plain_urls(&mut findings[i].citations, from, to);
        i = i + 1;
    }
    proof {
        assert(finding_views(findings@) =~= swap_findings(start, from@, to@));
    }
}

impl ResponseDocument {
    /// Replace every URL equal to `from` by `to`.
    pub fn replace_url(&mut self, from: &HttpUrl, to: &HttpUrl)
        ensures
            final(self)@ == swapped_doc(old(self)@, from@, to@),
    {
        match self {
            ResponseDocument::Search(value) => {
                swap_source_urls(&mut value.results, from, to);
                swap_candidate_urls(&mut value.evidence_audit, from, to);
            },
            ResponseDocument::Extract(value) => {
                swap_extract_urls(&mut value.results, from, to);
            },
            ResponseDocument::SiteMap(value) => {
                if value.base_url.same_url(from) {
                    value.base_url = to.clone();
                }
                swap_link_urls(&mut value.results, from, to);
            },
            ResponseDocument::Crawl(value) => {
                if value.base_url.same_url(from) {
                    value.base_url = to.clone();
                }
                swap_crawl_urls(&mut value.results, from, to);
            },
            ResponseDocument::Research(value) => {
                swap_source_urls(&mut value.sources, from, to);
                swap_finding_urls(&mut value.findings, from, to);
                swap_candidate_urls(&mut value.evidence_audit, from, to);
            },
            ResponseDocument::Status(_) | ResponseDocument::Models(_) => {},
        }
    }
}

} // verus!

verus! {

proof fn lemma_citations_swap(f: Seq<FindingView>, from: Seq<char>, to: Seq<char>)
    ensures
        citation_urls(swap_findings(f, from, to)) == swap_urls(citation_urls(f), from, to),
    decreases f.len(),
{
    if f.len() > 0 {
        lemma_citations_swap(f.drop_last(), from, to);
        assert(swap_findings(f, from, to).drop_last() =~= swap_findings(f.drop_last(), from, to));
        assert(swap_urls(citation_urls(f), from, to) =~= swap_urls(citation_urls(f.drop_last()), from, to)
            + swap_urls(f.last().citations, from, to));
    } else {
        assert(swap_urls(citation_urls(f), from, to) =~= Seq::<Seq<char>>::empty());
    }
}

/// Replacing a URL replaces it everywhere the document names URLs, in place, and changes no
/// other URL.
pub proof fn law_replace_swaps_every_url(d: DocumentView, from: Seq<char>, to: Seq<char>)
    ensures
        doc_urls(swapped_doc(d, from, to)) == swap_urls(doc_urls(d), from, to),
{
    match d {
        DocumentView::Search { audit, results } => {
            assert(doc_urls(swapped_doc(d, from, to)) =~= swap_urls(doc_urls(d), from, to));
        },
        DocumentView::Extract(pages) => {
            assert(doc_urls(swapped_doc(d, from, to)) =~= swap_urls(doc_urls(d), from, to));
        },
        DocumentView::SiteMap { base_url, results } => {
            assert(doc_urls(swapped_doc(d, from, to)) =~= swap_urls(doc_urls(d), from, to));
        },
        DocumentView::Crawl { base_url, results } => {
            assert(doc_urls(swapped_doc(d, from, to)) =~= swap_urls(doc_urls(d), from, to));
        },
        DocumentView::Research { audit, title, summary, findings, sources } => {
            lemma_citations_swap(findings, from, to);
            let left = src_urls(swap_sources(sources, from, to));
            let mid = citation_urls(swap_findings(findings, from, to));
            let right = candidate_urls(swap_audit(audit, from, to));
            assert(left =~= swap_urls(src_urls(sources), from, to));
            assert(right =~= swap_urls(candidate_urls(audit), from, to));
            assert(swap_urls(doc_urls(d), from, to) =~= swap_urls(src_urls(sources), from, to)
                + swap_urls(citation_urls(findings), from, to) + swap_urls(candidate_urls(audit), from, to));
        },
        DocumentView::Status { .. } | DocumentView::Models(_) => {
            assert(doc_urls(swapped_doc(d, from, to)) =~= swap_urls(doc_urls(d), from, to));
        },
    }
}

/// The grounding transports of a URL list are grounding transports of the list, each once.
pub proof fn law_transports_are_distinct_members(urls: Seq<Seq<char>>)
    ensures
        forall|i: int| 0 <= i < transports_first_seen(urls).len() ==> urls.contains(#[trigger] transports_first_seen(urls)[i])
            && url_kind(transports_first_seen(urls)[i]) == SourceUrlKind::GroundingRedirect,
        forall|i: int, j: int| 0 <= i < j < transports_first_seen(urls).len() ==> #[trigger] transports_first_seen(urls)[i]
            != #[trigger] transports_first_seen(urls)[j],
    decreases urls.len(),
{
    if urls.len() > 0 {
        let rest = urls.drop_last();
        law_transports_are_distinct_members(rest);
        let seen = transports_first_seen(rest);
        assert forall|i: int| 0 <= i < seen.len() implies urls.contains(#[trigger] seen[i]) by {
            let k = choose|k: int| 0 <= k < rest.len() && rest[k] == seen[i];
            assert(urls[k] == seen[i]);
        }
        if url_kind(urls.last()) == SourceUrlKind::GroundingRedirect && !seen.contains(urls.last()) {
            assert(urls[urls.len() - 1] == urls.last());
        }
    }
}

/// Once a transport is replaced by a different URL, the document no longer names it among its
/// grounding transports.
pub proof fn law_replaced_transport_is_gone(d: DocumentView, from: Seq<char>, to: Seq<char>)
    requires
        from != to,
    ensures
        !transports_first_seen(doc_urls(swapped_doc(d, from, to))).contains(from),
{
    law_replace_swaps_every_url(d, from, to);
    let after = doc_urls(swapped_doc(d, from, to));
    law_transports_are_distinct_members(after);
    assert(!after.contains(from)) by {
        if after.contains(from) {
            let k = choose|k: int| 0 <= k < after.len() && after[k] == from;
            assert(after[k] == swap(doc_urls(d)[k], from, to));
        }
    }
    if transports_first_seen(after).contains(from) {
        let i = choose|i: int| 0 <= i < transports_first_seen(after).len() && transports_first_seen(after)[i] == from;
        assert(after.contains(transports_first_seen(after)[i]));
    }
}

} // verus!
