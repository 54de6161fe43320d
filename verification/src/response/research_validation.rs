//! Research-specific response topology and citation validation.

use vstd::prelude::*;

use super::collection_validation::{
    audit_outcome, bounded, distinct, evidence_audit, ref_views, unique, within,
};
use super::public_dates::{syntax_ok, validate_syntax};
use crate::error::AgyError;
use crate::http_url::HttpUrl;
use crate::response_models::{
    finding_views, source_views, AuditView, FindingView, ResearchResponse, SourceView, WebSource,
};

verus! {

/// The URLs of public sources.
pub open spec fn src_urls(s: Seq<SourceView>) -> Seq<Seq<char>> {
    Seq::new(s.len(), |i: int| s[i].url)
}

/// A research answer: 1 to 20 findings and sources, each finding citing 1 to 20 of the
/// sources, no source twice, strict public dates, and an audit that covers every source.
pub open spec fn research_ok(audit: AuditView, findings: Seq<FindingView>, sources: Seq<SourceView>) -> bool {
    &&& within(findings.len(), 20)
    &&& within(sources.len(), 20)
    &&& forall|i: int| 0 <= i < findings.len() ==> within((#[trigger] findings[i]).citations.len(), 20)
    &&& distinct(src_urls(sources))
    &&& forall|i: int, k: int| 0 <= i < findings.len() && 0 <= k < findings[i].citations.len()
        ==> src_urls(sources).contains(#[trigger] findings[i].citations[k])
    &&& syntax_ok(sources)
    &&& audit_outcome(audit, src_urls(sources)) is Ok
}

/// The URLs of public sources, borrowed.
pub fn web_source_urls(sources: &Vec<WebSource>) -> (r: Vec<&HttpUrl>)
    ensures
        ref_views(r@) == src_urls(source_views(sources@)),
{
    let mut r: Vec<&HttpUrl> = Vec::new();
    let mut i: usize = 0;
    while i < sources.len()
        invariant
            i <= sources@.len(),
            ref_views(r@) == src_urls(source_views(sources@)).take(i as int),
        decreases sources@.len() - i,
    {
        let ghost before = ref_views(r@);
        r.push(&sources[i].url);
        proof {
            assert(ref_views(r@) =~= before.push(sources@[i as int].url@));
            assert(src_urls(source_views(sources@)).take(i + 1) =~= src_urls(source_views(sources@)).take(i as int).push(sources@[i as int].url@));
        }
        i = i + 1;
    }
    proof {
        assert(src_urls(source_views(sources@)).take(i as int) =~= src_urls(source_views(sources@)));
    }
    r
}

/// Whether `urls` holds `url`.
pub fn holds(urls: &Vec<&HttpUrl>, url: &HttpUrl) -> (r: bool)
    ensures
        r == ref_views(urls@).contains(url@),
{
    let ghost uv = ref_views(urls@);
    let mut i: usize = 0;
    while i < urls.len()
        invariant
            uv == ref_views(urls@),
            i <= urls@.len(),
            forall|k: int| 0 <= k < i ==> uv[k] != url@,
        decreases urls@.len() - i,
    {
        if urls[i].same_url(url) {
            proof {
                assert(uv[i as int] == url@);
            }
            return true;
        }
        i = i + 1;
    }
    false
}

/// Check a research answer.
pub fn validate(response: &ResearchResponse) -> (r: Result<(), AgyError>)
    ensures
        r is Ok <==> research_ok(response.evidence_audit@, finding_views(response.findings@), source_views(response.sources@)),
        r matches Err(e) ==> e == AgyError::OutputInvalid,
{
    let ghost fv = finding_views(response.findings@);
    let ghost sv = source_views(response.sources@);
    if bounded(response.findings.len(), 20).is_err() || bounded(response.sources.len(), 20).is_err() {
        return Err(AgyError::OutputInvalid);
    }
    let mut i: usize = 0;
    while i < response.findings.len()
        invariant
            fv == finding_views(response.findings@),
            i <= response.findings@.len(),
            forall|k: int| 0 <= k < i ==> within((#[trigger] fv[k]).citations.len(), 20),
        decreases response.findings@.len() - i,
    {
        proof {
            assert(fv[i as int] == response.findings@[i as int]@);
        }
        if bounded(response.findings[i].citations.len(), 20).is_err() {
            return Err(AgyError::OutputInvalid);
        }
        i = i + 1;
    }
    let sources = web_source_urls(&response.sources);
    if unique(&sources).is_err() {
        return Err(AgyError::OutputInvalid);
    }
    let mut f: usize = 0;
    while f < response.findings.len()
        invariant
            fv == finding_views(response.findings@),
            sv == source_views(response.sources@),
            ref_views(sources@) == src_urls(sv),
            f <= response.findings@.len(),
            forall|a: int, k: int| 0 <= a < f && 0 <= k < fv[a].citations.len() ==> src_urls(sv).contains(#[trigger] fv[a].citations[k]),
        decreases response.findings@.len() - f,
    {
        let finding = &response.findings[f];
        proof {
            assert(fv[f as int] == finding@);
        }
        let mut c: usize = 0;
        while c < finding.citations.len()
            invariant
                fv == finding_views(response.findings@),
                sv == source_views(response.sources@),
                ref_views(sources@) == src_urls(sv),
                f < response.findings@.len(),
                fv[f as int] == finding@,
                c <= finding.citations@.len(),
                forall|k: int| 0 <= k < c ==> src_urls(sv).contains(#[trigger] fv[f as int].citations[k]),
            decreases finding.citations@.len() - c,
        {
            if !holds(&sources, &finding.citations[c]) {
                proof {
                    assert(!src_urls(sv).contains(fv[f as int].citations[c as int]));
                }
                return Err(AgyError::OutputInvalid);
            }
            c = c + 1;
        }
        f = f + 1;
    }
    if validate_syntax(&response.sources).is_err() {
        return Err(AgyError::OutputInvalid);
    }
    match evidence_audit(&response.evidence_audit, &sources) {
        Ok(()) => Ok(()),
        Err(_) => Err(AgyError::OutputInvalid),
    }
}

} // verus!
