//! Shared response collection and evidence-audit invariants.

use vstd::prelude::*;

use crate::error::AgyError;
use crate::http_url::{url_kind, HttpUrl, SourceUrlKind};
use crate::response_models::{AuditView, EvidenceAudit, ScopeEvidence};

verus! {

/// A collection holds at least one and at most `maximum` items.
pub open spec fn within(length: nat, maximum: nat) -> bool {
    1 <= length <= maximum
}

/// Check a collection's length.
pub fn bounded(length: usize, maximum: usize) -> (r: Result<(), AgyError>)
    ensures
        r is Ok <==> within(length as nat, maximum as nat),
        r matches Err(e) ==> e == AgyError::OutputInvalid,
{
    if 1 <= length && length <= maximum {
        Ok(())
    } else {
        Err(AgyError::OutputInvalid)
    }
}

/// The texts of borrowed URLs.
pub open spec fn ref_views(v: Seq<&HttpUrl>) -> Seq<Seq<char>> {
    Seq::new(v.len(), |i: int| v[i]@)
}

/// No URL occurs twice.
pub open spec fn distinct(urls: Seq<Seq<char>>) -> bool {
    forall|i: int, j: int| 0 <= i < j < urls.len() ==> #[trigger] urls[i] != #[trigger] urls[j]
}

/// Check that no URL occurs twice.
pub fn unique(urls: &Vec<&HttpUrl>) -> (r: Result<(), AgyError>)
    ensures
        r is Ok <==> distinct(ref_views(urls@)),
        r matches Err(e) ==> e == AgyError::OutputInvalid,
{
    let ghost uv = ref_views(urls@);
    let mut j: usize = 0;
    while j < urls.len()
        invariant
            uv == ref_views(urls@),
            j <= urls@.len(),
            forall|a: int, b: int| 0 <= a < b < j ==> #[trigger] uv[a] != #[trigger] uv[b],
        decreases urls@.len() - j,
    {
        let mut i: usize = 0;
        while i < j
            invariant
                uv == ref_views(urls@),
                j < urls@.len(),
                i <= j,
                forall|a: int| 0 <= a < i ==> #[trigger] uv[a] != uv[j as int],
            decreases j - i,
        {
            if urls[i].same_url(urls[j]) {
                proof {
                    assert(uv[i as int] == uv[j as int]);
                }
                return Err(AgyError::OutputInvalid);
            }
            i = i + 1;
        }
        j = j + 1;
    }
    Ok(())
}

/// Why an evidence audit was refused.
#[derive(Clone, Copy, Debug, PartialEq, Eq, Structural)]
pub enum EvidenceAuditError {
    CandidateInvalid,
    PublicUrlMissing,
}

/// The URLs the audit names.
pub open spec fn candidate_urls(audit: AuditView) -> Seq<Seq<char>> {
    Seq::new(audit.candidates.len(), |i: int| audit.candidates[i].url)
}

/// An audit holds 1 to 20 candidates on direct URLs, and every public URL is one of them.
pub open spec fn audit_outcome(audit: AuditView, public: Seq<Seq<char>>) -> Result<(), EvidenceAuditError> {
    if !within(audit.candidates.len(), 20) || exists|i: int|
        0 <= i < audit.candidates.len() && url_kind(#[trigger] audit.candidates[i].url) != SourceUrlKind::Direct {
        Err(EvidenceAuditError::CandidateInvalid)
    } else if exists|j: int| 0 <= j < public.len() && !candidate_urls(audit).contains(#[trigger] public[j]) {
        Err(EvidenceAuditError::PublicUrlMissing)
    } else {
        Ok(())
    }
}

/// Whether the audit names `url`.
fn audited(candidates: &Vec<ScopeEvidence>, url: &HttpUrl) -> (r: bool)
    ensures
        r == Seq::new(candidates@.len(), |i: int| candidates@[i].url@).contains(url@),
{
    let ghost cu = Seq::new(candidates@.len(), |i: int| candidates@[i].url@);
    let mut i: usize = 0;
    while i < candidates.len()
        invariant
            cu == Seq::new(candidates@.len(), |i: int| candidates@[i].url@),
            i <= candidates@.len(),
            forall|k: int| 0 <= k < i ==> cu[k] != url@,
        decreases candidates@.len() - i,
    {
        if candidates[i].url.same_url(url) {
            proof {
                assert(cu[i as int] == url@);
            }
            return true;
        }
        i = i + 1;
    }
    false
}

/// Check an evidence audit against the public URLs it must cover.
pub fn evidence_audit(audit: &EvidenceAudit, public_urls: &Vec<&HttpUrl>) -> (r: Result<(), EvidenceAuditError>)
    ensures
        r == audit_outcome(audit@, ref_views(public_urls@)),
{
    let ghost av = audit@;
    let n = audit.candidates.len();
    if !(1 <= n && n <= 20) {
        return Err(EvidenceAuditError::CandidateInvalid);
    }
    let mut i: usize = 0;
    while i < n
        invariant
            av == audit@,
            n == audit.candidates@.len(),
            i <= n,
            forall|k: int| 0 <= k < i ==> url_kind(#[trigger] av.candidates[k].url) == SourceUrlKind::Direct,
        decreases n - i,
    {
        proof {
            assert(av.candidates[i as int] == audit.candidates@[i as int]@);
        }
        if audit.candidates[i].url.source_kind() != SourceUrlKind::Direct {
            proof {
                assert(url_kind(av.candidates[i as int].url) != SourceUrlKind::Direct);
            }
            return Err(EvidenceAuditError::CandidateInvalid);
        }
        i = i + 1;
    }
    let ghost pv = ref_views(public_urls@);
    proof {
        assert(candidate_urls(av) =~= Seq::new(audit.candidates@.len(), |i: int| audit.candidates@[i].url@));
    }
    let mut j: usize = 0;
    while j < public_urls.len()
        invariant
            av == audit@,
            pv == ref_views(public_urls@),
            candidate_urls(av) == Seq::new(audit.candidates@.len(), |i: int| audit.candidates@[i].url@),
            within(av.candidates.len(), 20),
            forall|k: int| 0 <= k < av.candidates.len() ==> url_kind(#[trigger] av.candidates[k].url) == SourceUrlKind::Direct,
            j <= public_urls@.len(),
            forall|k: int| 0 <= k < j ==> candidate_urls(av).contains(#[trigger] pv[k]),
        decreases public_urls@.len() - j,
    {
        if !audited(&audit.candidates, public_urls[j]) {
            proof {
                assert(!candidate_urls(av).contains(pv[j as int]));
            }
            return Err(EvidenceAuditError::PublicUrlMissing);
        }
        j = j + 1;
    }
    Ok(())
}

} // verus!
