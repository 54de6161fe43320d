//! Caller-owned source allowlist and verification facade.

use vstd::prelude::*;

use crate::source_document::{
    scope_fact, verify_outcome, BindingView, CandidateBinding, DocView, SourceDocument,
    SourceDocumentError,
};
use crate::source_fact::{FactView, SourceFact};
use crate::text::chars_of;

verus! {

/// Why a source contract, or a candidate checked against it, was refused.
#[derive(Clone, Copy, Debug, PartialEq, Eq, Structural)]
pub enum SourceContractError {
    InvalidAllowlist,
    Document(SourceDocumentError),
    SourceNotAllowed,
    TaskFailed,
}

impl SourceContractError {
    /// The error's message.
    pub fn message(&self) -> (m: &'static str)
        ensures
            m@ == match self {
                SourceContractError::InvalidAllowlist => "source allowlist was empty or contained duplicates"@,
                SourceContractError::Document(_) => "source document failed verification"@,
                SourceContractError::SourceNotAllowed => "candidate source was outside the caller allowlist"@,
                SourceContractError::TaskFailed => "source fetch task failed"@,
            },
    {
        match self {
            SourceContractError::InvalidAllowlist => "source allowlist was empty or contained duplicates",
            SourceContractError::Document(_) => "source document failed verification",
            SourceContractError::SourceNotAllowed => "candidate source was outside the caller allowlist",
            SourceContractError::TaskFailed => "source fetch task failed",
        }
    }
}

/// The views of a sequence of documents.
pub open spec fn doc_views(v: Seq<SourceDocument>) -> Seq<DocView> {
    Seq::new(v.len(), |i: int| v[i]@)
}

/// An allowlist: at least one document, and no source twice.
pub open spec fn allowlist_ok(docs: Seq<DocView>) -> bool {
    docs.len() > 0 && forall|i: int, j: int|
        0 <= i < j < docs.len() ==> (#[trigger] docs[i]).url != (#[trigger] docs[j]).url
}

/// The document for `url`, if the allowlist has it.
pub open spec fn document_for(docs: Seq<DocView>, url: Seq<char>) -> Option<DocView> {
    if exists|i: int| 0 <= i < docs.len() && (#[trigger] docs[i]).url == url {
        let i = choose|i: int| 0 <= i < docs.len() && (#[trigger] docs[i]).url == url;
        Some(docs[i])
    } else {
        None
    }
}

/// A candidate is verified when its source is allowlisted and that document binds it once.
pub open spec fn contract_verify(docs: Seq<DocView>, c: BindingView) -> Result<(), SourceContractError> {
    match document_for(docs, c.source_url) {
        None => Err(SourceContractError::SourceNotAllowed),
        Some(d) => match verify_outcome(d.sections, c) {
            Ok(()) => Ok(()),
            Err(e) => Err(SourceContractError::Document(e)),
        },
    }
}

/// The one fact all documents state for a scope: none when none does, an error when a document
/// is ambiguous or two documents state one.
pub open spec fn docs_fact(docs: Seq<DocView>, scope: Seq<char>) -> Result<Option<FactView>, SourceDocumentError>
    decreases docs.len(),
{
    if docs.len() == 0 {
        Ok(None)
    } else {
        match docs_fact(docs.drop_last(), scope) {
            Err(e) => Err(e),
            Ok(found) => match scope_fact(docs.last().sections, scope) {
                Err(e) => Err(e),
                Ok(None) => Ok(found),
                Ok(Some(f)) => if found is Some {
                    Err(SourceDocumentError::AmbiguousBinding)
                } else {
                    Ok(Some(f))
                },
            },
        }
    }
}

/// What `unique_fact` answers.
pub open spec fn unique_outcome(docs: Seq<DocView>, scope: Seq<char>) -> Result<Option<FactView>, SourceContractError> {
    match docs_fact(docs, scope) {
        Err(e) => Err(SourceContractError::Document(e)),
        Ok(found) => Ok(found),
    }
}

/// What `exact_fact` answers: the unique fact, kept only when its value is the expected one.
pub open spec fn exact_outcome(docs: Seq<DocView>, scope: Seq<char>, expected: Seq<char>) -> Result<Option<FactView>, SourceContractError> {
    match unique_outcome(docs, scope) {
        Err(e) => Err(e),
        Ok(Some(f)) => if f.value == expected {
            Ok(Some(f))
        } else {
            Ok(None)
        },
        Ok(None) => Ok(None),
    }
}

/// Once a prefix of the documents fails, the whole fails the same way.
proof fn lemma_docs_fact_err(docs: Seq<DocView>, scope: Seq<char>, k: int)
    requires
        0 <= k <= docs.len(),
        docs_fact(docs.take(k), scope) is Err,
    ensures
        docs_fact(docs, scope) == docs_fact(docs.take(k), scope),
    decreases docs.len() - k,
{
    if k < docs.len() {
        assert(docs.take(k + 1).drop_last() =~= docs.take(k));
        lemma_docs_fact_err(docs, scope, k + 1);
    } else {
        assert(docs.take(k) =~= docs);
    }
}

/// The caller's allowlisted source documents.
#[derive(Debug)]
pub struct SourceContract {
    documents: Vec<SourceDocument>,
}

impl View for SourceContract {
    type V = Seq<DocView>;

    closed spec fn view(&self) -> Seq<DocView> {
        doc_views(self.documents@)
    }
}

impl SourceContract {
    #[verifier::type_invariant]
    closed spec fn well_formed(self) -> bool {
        allowlist_ok(doc_views(self.documents@))
    }

    /// A contract over parsed documents: there must be one, and no source may come twice.
    pub fn from_documents(documents: Vec<SourceDocument>) -> (r: Result<SourceContract, SourceContractError>)
        ensures
            match r {
                Ok(c) => c@ == doc_views(documents@) && allowlist_ok(c@),
                Err(e) => !allowlist_ok(doc_views(documents@)) && e == SourceContractError::InvalidAllowlist,
            },
    {
        let ghost dv = doc_views(documents@);
        if documents.len() == 0 {
            return Err(SourceContractError::InvalidAllowlist);
        }
        let mut j: usize = 1;
        while j < documents.len()
            invariant
                dv == doc_views(documents@),
                1 <= j <= documents@.len(),
                forall|a: int, b: int| 0 <= a < b < j ==> (#[trigger] dv[a]).url != (#[trigger] dv[b]).url,
            decreases documents@.len() - j,
        {
            let mut i: usize = 0;
            while i < j
                invariant
                    dv == doc_views(documents@),
                    j < documents@.len(),
                    i <= j,
                    forall|a: int| 0 <= a < i ==> (#[trigger] dv[a]).url != dv[j as int].url,
                decreases j - i,
            {
                if documents[i].url().same_url(documents[j].url()) {
                    proof {
                        assert(dv[i as int].url == dv[j as int].url);
                    }
                    return Err(SourceContractError::InvalidAllowlist);
                }
                i = i + 1;
            }
            j = j + 1;
        }
        Ok(SourceContract { documents })
    }

    /// Check a candidate against the document of the source it claims.
    pub fn verify(&self, candidate: &CandidateBinding) -> (r: Result<(), SourceContractError>)
        ensures
            r == contract_verify(self@, candidate@),
    {
        proof {
            use_type_invariant(self);
        }
        let ghost dv = doc_views(self.documents@);
        let mut i: usize = 0;
        while i < self.documents.len()
            invariant
                dv == doc_views(self.documents@),
                allowlist_ok(dv),
                i <= self.documents@.len(),
                forall|a: int| 0 <= a < i ==> (#[trigger] dv[a]).url != candidate@.source_url,
            decreases self.documents@.len() - i,
        {
            let document = &self.documents[i];
            if document.url().same_url(candidate.source_url()) {
                proof {
                    assert(dv[i as int] == document@);
                    let c = choose|m: int| 0 <= m < dv.len() && (#[trigger] dv[m]).url == candidate@.source_url;
                    assert(c == i) by {
                        if c < i {
                            assert(dv[c].url != dv[i as int].url);
                        } else if c > i {
                            assert(dv[i as int].url != dv[c].url);
                        }
                    }
                }
                return match document.verify(candidate) {
                    Ok(()) => Ok(()),
                    Err(e) => Err(SourceContractError::Document(e)),
                };
            }
            i = i + 1;
        }
        Err(SourceContractError::SourceNotAllowed)
    }

    /// The unique fact for `scope`, kept only when its value is `expected_value`.
    pub fn exact_fact(&self, scope: &str, expected_value: &str) -> (r: Result<Option<SourceFact>, SourceContractError>)
        ensures
            match r {
                Ok(Some(f)) => exact_outcome(self@, scope@, expected_value@) == Ok::<Option<FactView>, SourceContractError>(Some(f@)),
                Ok(None) => exact_outcome(self@, scope@, expected_value@) == Ok::<Option<FactView>, SourceContractError>(None),
                Err(e) => exact_outcome(self@, scope@, expected_value@) == Err::<Option<FactView>, SourceContractError>(e),
            },
            r matches Ok(Some(f)) ==> f@.value == expected_value@ && f@.scope == scope@
                && exists|i: int| 0 <= i < self@.len() && (#[trigger] self@[i]).url == f@.source_url,
    {
        match self.unique_fact(scope) {
            Err(e) => Err(e),
            Ok(None) => Ok(None),
            Ok(Some(fact)) => {
                let expected = chars_of(expected_value);
                let value = chars_of(fact.value());
                if crate::text::chars_equal(value.as_slice(), expected.as_slice()) {
                    Ok(Some(fact))
                } else {
                    Ok(None)
                }
            },
        }
    }

    /// The one fact the documents state for `scope`.
    pub fn unique_fact(&self, scope: &str) -> (r: Result<Option<SourceFact>, SourceContractError>)
        ensures
            match r {
                Ok(Some(f)) => unique_outcome(self@, scope@) == Ok::<Option<FactView>, SourceContractError>(Some(f@)),
                Ok(None) => unique_outcome(self@, scope@) == Ok::<Option<FactView>, SourceContractError>(None),
                Err(e) => unique_outcome(self@, scope@) == Err::<Option<FactView>, SourceContractError>(e),
            },
            r matches Ok(Some(f)) ==> f@.scope == scope@
                && exists|i: int| 0 <= i < self@.len() && (#[trigger] self@[i]).url == f@.source_url,
    {
        let ghost dv = doc_views(self.documents@);
        let mut found: Option<SourceFact> = None;
        let mut i: usize = 0;
        proof {
            assert(dv.take(0) =~= Seq::<DocView>::empty());
        }
        while i < self.documents.len()
            invariant
                dv == doc_views(self.documents@),
                i <= self.documents@.len(),
                docs_fact(dv.take(i as int), scope@) == Ok::<Option<FactView>, SourceDocumentError>(
                    match found {
                        Some(f) => Some(f@),
                        None => None,
                    },
                ),
                found matches Some(f) ==> f@.scope == scope@
                    && exists|k: int| 0 <= k < dv.len() && (#[trigger] dv[k]).url == f@.source_url,
            decreases self.documents@.len() - i,
        {
            let document = &self.documents[i];
            proof {
                assert(dv.take(i + 1).drop_last() =~= dv.take(i as int));
                assert(dv.take(i + 1).last() == document@);
                assert(dv[i as int] == document@);
            }
            match document.exact_fact(scope) {
                Err(e) => {
                    proof {
                        lemma_docs_fact_err(dv, scope@, i + 1);
                    }
                    return Err(SourceContractError::Document(e));
                },
                Ok(None) => {},
                Ok(Some(fact)) => {
                    if found.is_some() {
                        proof {
                            lemma_docs_fact_err(dv, scope@, i + 1);
                        }
                        return Err(SourceContractError::Document(SourceDocumentError::AmbiguousBinding));
                    }
                    found = Some(fact);
                },
            }
            i = i + 1;
        }
        proof {
            assert(dv.take(i as int) =~= dv);
        }
        Ok(found)
    }
}

} // verus!
