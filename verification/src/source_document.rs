//! Deterministic source-document tuple verification.

use vstd::prelude::*;

use crate::calendar_date::CalendarDate;
use crate::source_date::{self, source_date};
use crate::source_document_heading::{heading_sections, spec_heading_sections};
use crate::source_document_html::attribute_selection::{
    elements_with_attribute, spec_elements_with_attribute,
};
use crate::source_document_html::tokenizer::{find_seq, find_seq_exec, lemma_find_seq_bounds};
use crate::source_document_html::attribute_selection::ElementView;
use crate::source_document_sections::{
    panel_sections, paired_first_rows, section_of, section_views, spec_paired_first_rows, SectionView,
    SourceSection,
};
use crate::source_fact::{CandidateView, FactView, SourceFact, SourceFactCandidate};
use crate::source_url::SafeSourceUrl;
use crate::text::{
    char_alphanumeric, chars_of, is_alphanumeric, same_text, lemma_trim_unchanged, slice_chars,
    string_from_chars, trim, trim_chars,
};

verus! {

/// Why a source document, or a candidate checked against it, was refused.
#[derive(Clone, Copy, Debug, PartialEq, Eq, Structural)]
pub enum SourceDocumentError {
    InvalidStructure,
    InvalidCandidate,
    DateMismatch,
    MissingBinding,
    AmbiguousBinding,
}

impl SourceDocumentError {
    /// The error's message.
    pub fn message(&self) -> (m: &'static str)
        ensures
            m@ == match self {
                SourceDocumentError::InvalidStructure => "source document structure was invalid"@,
                SourceDocumentError::InvalidCandidate => "source candidate fields were invalid"@,
                SourceDocumentError::DateMismatch => "source date text did not equal the normalized candidate date"@,
                SourceDocumentError::MissingBinding => "source candidate tuple was not bound in one source section"@,
                SourceDocumentError::AmbiguousBinding => "source candidate tuple was ambiguous across source sections"@,
            },
    {
        match self {
            SourceDocumentError::InvalidStructure => "source document structure was invalid",
            SourceDocumentError::InvalidCandidate => "source candidate fields were invalid",
            SourceDocumentError::DateMismatch => "source date text did not equal the normalized candidate date",
            SourceDocumentError::MissingBinding => "source candidate tuple was not bound in one source section",
            SourceDocumentError::AmbiguousBinding => "source candidate tuple was ambiguous across source sections",
        }
    }
}

/// A candidate tuple: where it claims to come from, its scope, its value and its date text.
pub struct BindingView {
    pub source_url: Seq<char>,
    pub scope: Seq<char>,
    pub value: Seq<char>,
    pub source_date_text: Seq<char>,
}

/// A candidate field: non-empty and without surrounding whitespace.
pub open spec fn field_ok(f: Seq<char>) -> bool {
    trim(f).len() > 0 && trim(f) == f
}

/// What a candidate tuple becomes: its fields must be trimmed and non-empty, and its date text
/// must name the very day it claims.
pub open spec fn binding_outcome(url: Seq<char>, scope: Seq<char>, value: Seq<char>, date: Seq<char>, text: Seq<char>) -> Result<BindingView, SourceDocumentError> {
    if !field_ok(scope) || !field_ok(value) || !field_ok(text) {
        Err(SourceDocumentError::InvalidCandidate)
    } else {
        match source_date(text) {
            Err(_) => Err(SourceDocumentError::InvalidCandidate),
            Ok(day) => if day != date {
                Err(SourceDocumentError::DateMismatch)
            } else {
                Ok(BindingView { source_url: url, scope, value, source_date_text: text })
            },
        }
    }
}

/// The heading sections as sections that state no fact; each must make a section.
pub open spec fn weak_sections(h: Seq<(Seq<char>, Seq<char>)>) -> Option<Seq<SectionView>>
    decreases h.len(),
{
    if h.len() == 0 {
        Some(Seq::empty())
    } else {
        match weak_sections(h.drop_last()) {
            None => None,
            Some(done) => match section_of(h.last().0, h.last().1, CandidateView::NotApplicable) {
                None => None,
                Some(s) => Some(done.push(s)),
            },
        }
    }
}

/// The sections of a source body: paired tab panels when there are panels, else heading
/// sections; a blank body has none.
pub open spec fn spec_document_sections(url: Seq<char>, body: Seq<char>) -> Option<Seq<SectionView>> {
    if trim(body).len() == 0 {
        None
    } else {
        match (
            spec_elements_with_attribute(body, "data-tab"@),
            spec_elements_with_attribute(body, "data-list-panel"@),
        ) {
            (Some(tabs), Some(panels)) => if panels.len() == 0 {
                match spec_heading_sections(body) {
                    None => None,
                    Some(h) => if h.len() == 0 {
                        None
                    } else {
                        weak_sections(h)
                    },
                }
            } else {
                spec_paired_first_rows(url, tabs, panels)
            },
            _ => None,
        }
    }
}

/// A joiner inside a token such as `1.2.3` or `beta-v1`.
pub open spec fn joiner(c: char) -> bool {
    c == '.' || c == '-' || c == '_' || c == '+'
}

/// The text before a match continues a token: it ends in a letter or digit, or in a joiner right
/// after one.
pub open spec fn token_continues_before(prefix: Seq<char>) -> bool {
    prefix.len() > 0 && (char_alphanumeric(prefix.last()) || (joiner(prefix.last()) && prefix.len() > 1
        && char_alphanumeric(prefix[prefix.len() - 2])))
}

/// The text after a match continues a token: it starts with a letter or digit, or with a joiner
/// followed by one.
pub open spec fn token_continues_after(suffix: Seq<char>) -> bool {
    suffix.len() > 0 && (char_alphanumeric(suffix[0]) || (joiner(suffix[0]) && suffix.len() > 1
        && char_alphanumeric(suffix[1])))
}

/// The span `start..end` of `h` is a whole token.
pub open spec fn field_bounded(h: Seq<char>, start: int, end: int) -> bool {
    !token_continues_before(h.take(start)) && !token_continues_after(h.skip(end))
}

/// Among the non-overlapping matches of `n` in `h` that start at or after `from`, found left to
/// right, one is a whole token. An empty `n` matches at every position.
pub open spec fn exact_from(h: Seq<char>, n: Seq<char>, from: int) -> bool
    decreases h.len() + 1 - from,
{
    if from < 0 || from > h.len() {
        false
    } else if n.len() == 0 {
        field_bounded(h, from, from) || exact_from(h, n, from + 1)
    } else {
        match find_seq(h, n, from) {
            None => false,
            Some(p) => {
                proof {
                    lemma_find_seq_bounds(h, n, from);
                }
                field_bounded(h, p, p + n.len()) || exact_from(h, n, p + n.len())
            },
        }
    }
}

/// `n` occurs in `h` as a whole token.
pub open spec fn exact_field(h: Seq<char>, n: Seq<char>) -> bool {
    exact_from(h, n, 0)
}

/// A section binds a candidate: same scope, and both value and date text occur in its evidence
/// as whole tokens.
pub open spec fn binds(s: SectionView, c: BindingView) -> bool {
    s.scope == c.scope && exact_field(s.evidence, c.value) && exact_field(s.evidence, c.source_date_text)
}

/// How many sections bind a candidate.
pub open spec fn binding_count(sections: Seq<SectionView>, c: BindingView) -> nat
    decreases sections.len(),
{
    if sections.len() == 0 {
        0
    } else {
        binding_count(sections.drop_last(), c) + if binds(sections.last(), c) {
            1nat
        } else {
            0nat
        }
    }
}

/// A candidate is verified when exactly one section binds it.
pub open spec fn verify_outcome(sections: Seq<SectionView>, c: BindingView) -> Result<(), SourceDocumentError> {
    let n = binding_count(sections, c);
    if n == 1 {
        Ok(())
    } else if n == 0 {
        Err(SourceDocumentError::MissingBinding)
    } else {
        Err(SourceDocumentError::AmbiguousBinding)
    }
}

/// The one fact the sections of a scope state: none when none states one, an error when two
/// do or one is ambiguous.
pub open spec fn scope_fact(sections: Seq<SectionView>, scope: Seq<char>) -> Result<Option<FactView>, SourceDocumentError>
    decreases sections.len(),
{
    if sections.len() == 0 {
        Ok(None)
    } else {
        match scope_fact(sections.drop_last(), scope) {
            Err(e) => Err(e),
            Ok(found) => {
                let s = sections.last();
                if s.scope != scope {
                    Ok(found)
                } else {
                    match s.fact {
                        CandidateView::Fact(f) => if found is None {
                            Ok(Some(f))
                        } else {
                            Err(SourceDocumentError::AmbiguousBinding)
                        },
                        CandidateView::Ambiguous => Err(SourceDocumentError::AmbiguousBinding),
                        CandidateView::NotApplicable => Ok(found),
                    }
                }
            },
        }
    }
}

/// A fact found for a scope is filed under that scope.
pub proof fn lemma_scope_fact_scope(sections: Seq<SectionView>, scope: Seq<char>)
    requires
        forall|i: int| #![trigger sections[i]]
            0 <= i < sections.len() && sections[i].fact is Fact ==> sections[i].fact->Fact_0.scope
                == sections[i].scope,
    ensures
        scope_fact(sections, scope) matches Ok(Some(f)) ==> f.scope == scope,
    decreases sections.len(),
{
    if sections.len() > 0 {
        lemma_scope_fact_scope(sections.drop_last(), scope);
        assert(sections.last() == sections[sections.len() - 1]);
    }
}

/// A source document: where it comes from and its sections.
pub struct DocView {
    pub url: Seq<char>,
    pub sections: Seq<SectionView>,
}

/// The plain views of heading sections.
pub open spec fn heading_views(v: Seq<(Vec<char>, Vec<char>)>) -> Seq<(Seq<char>, Seq<char>)> {
    Seq::new(v.len(), |i: int| (v[i].0@, v[i].1@))
}

/// The heading sections as sections that state no fact.
fn weak_section_list(headings: &Vec<(Vec<char>, Vec<char>)>) -> (r: Result<Vec<SourceSection>, SourceDocumentError>)
    ensures
        match r {
            Ok(v) => weak_sections(heading_views(headings@)) == Some(section_views(v@)),
            Err(e) => weak_sections(heading_views(headings@)) is None && e == SourceDocumentError::InvalidStructure,
        },
{
    let ghost hv = heading_views(headings@);
    let mut sections: Vec<SourceSection> = Vec::new();
    let mut i: usize = 0;
    proof {
        assert(hv.take(0) =~= Seq::<(Seq<char>, Seq<char>)>::empty());
        assert(section_views(sections@) =~= Seq::<SectionView>::empty());
    }
    while i < headings.len()
        invariant
            hv == heading_views(headings@),
            i <= headings@.len(),
            weak_sections(hv.take(i as int)) == Some(section_views(sections@)),
        decreases headings@.len() - i,
    {
        let scope = string_from_chars(headings[i].0.as_slice());
        let evidence = string_from_chars(headings[i].1.as_slice());
        proof {
            assert(hv.take(i + 1).drop_last() =~= hv.take(i as int));
            assert(hv.take(i + 1).last() == hv[i as int]);
        }
        let section = match SourceSection::weak(scope, evidence) {
            Ok(s) => s,
            Err(e) => {
                proof {
                    lemma_weak_sections_none(hv, i as int + 1);
                }
                return Err(e);
            },
        };
        let ghost before = section_views(sections@);
        sections.push(section);
        proof {
            assert(section_views(sections@) =~= before.push(section_views(sections@).last()));
        }
        i = i + 1;
    }
    proof {
        assert(hv.take(i as int) =~= hv);
    }
    Ok(sections)
}

/// Once a prefix of the headings makes no sections, the whole makes none.
proof fn lemma_weak_sections_none(h: Seq<(Seq<char>, Seq<char>)>, k: int)
    requires
        0 <= k <= h.len(),
        weak_sections(h.take(k)) is None,
    ensures
        weak_sections(h) is None,
    decreases h.len() - k,
{
    if k < h.len() {
        assert(h.take(k + 1).drop_last() =~= h.take(k));
        lemma_weak_sections_none(h, k + 1);
    } else {
        assert(h.take(k) =~= h);
    }
}

/// Once a prefix of the sections fails, the whole fails the same way.
proof fn lemma_scope_fact_err(s: Seq<SectionView>, scope: Seq<char>, k: int)
    requires
        0 <= k <= s.len(),
        scope_fact(s.take(k), scope) is Err,
    ensures
        scope_fact(s, scope) == scope_fact(s.take(k), scope),
    decreases s.len() - k,
{
    if k < s.len() {
        assert(s.take(k + 1).drop_last() =~= s.take(k));
        lemma_scope_fact_err(s, scope, k + 1);
    } else {
        assert(s.take(k) =~= s);
    }
}

/// A section's fact, if any, is filed under the section's scope and names `url`.
pub open spec fn section_consistent(url: Seq<char>, s: SectionView) -> bool {
    s.fact matches CandidateView::Fact(f) ==> f.scope == s.scope && f.source_url == url
}

/// Every section's fact is filed under its section's scope and names `url`.
pub open spec fn facts_consistent(url: Seq<char>, sections: Seq<SectionView>) -> bool {
    forall|i: int| 0 <= i < sections.len() ==> section_consistent(url, #[trigger] sections[i])
}

proof fn lemma_weak_sections_consistent(url: Seq<char>, h: Seq<(Seq<char>, Seq<char>)>)
    ensures
        weak_sections(h) matches Some(s) ==> facts_consistent(url, s),
    decreases h.len(),
{
    if h.len() > 0 {
        lemma_weak_sections_consistent(url, h.drop_last());
        if let Some(s) = weak_sections(h) {
            let done = weak_sections(h.drop_last())->0;
            assert forall|i: int| 0 <= i < s.len() implies section_consistent(url, #[trigger] s[i]) by {
                if i < done.len() {
                    assert(s[i] == done[i]);
                }
            }
        }
    }
}

proof fn lemma_panel_sections_consistent(url: Seq<char>, tv: Seq<ElementView>, pv: Seq<ElementView>)
    ensures
        panel_sections(url, tv, pv) matches Some(s) ==> facts_consistent(url, s),
    decreases pv.len(),
{
    if pv.len() > 0 {
        lemma_panel_sections_consistent(url, tv, pv.drop_last());
        if let Some(s) = panel_sections(url, tv, pv) {
            let done = panel_sections(url, tv, pv.drop_last())->0;
            assert forall|i: int| 0 <= i < s.len() implies section_consistent(url, #[trigger] s[i]) by {
                if i < done.len() {
                    assert(s[i] == done[i]);
                }
            }
        }
    }
}

/// The sections of a parsed body only hold facts filed under their own scope and naming the
/// body's source.
pub proof fn lemma_document_sections_consistent(url: Seq<char>, body: Seq<char>)
    ensures
        spec_document_sections(url, body) matches Some(s) ==> facts_consistent(url, s),
{
    match (
        spec_elements_with_attribute(body, "data-tab"@),
        spec_elements_with_attribute(body, "data-list-panel"@),
    ) {
        (Some(tabs), Some(panels)) => {
            lemma_panel_sections_consistent(url, tabs, panels);
            if let Some(h) = spec_heading_sections(body) {
                lemma_weak_sections_consistent(url, h);
            }
        },
        _ => {},
    }
}

/// A checked candidate tuple.
#[derive(Debug)]
pub struct CandidateBinding {
    source_url: SafeSourceUrl,
    scope: String,
    value: String,
    source_date_text: String,
}

impl View for CandidateBinding {
    type V = BindingView;

    closed spec fn view(&self) -> BindingView {
        BindingView {
            source_url: self.source_url@,
            scope: self.scope@,
            value: self.value@,
            source_date_text: self.source_date_text@,
        }
    }
}

/// Whether a candidate field is non-empty and trimmed.
fn field_is_trimmed(field: &str) -> (r: bool)
    ensures
        r == field_ok(field@),
{
    let chars = chars_of(field);
    let trimmed = trim_chars(&chars);
    if trimmed.len() == 0 || trimmed.len() != chars.len() {
        return false;
    }
    proof {
        lemma_trim_unchanged(field@);
    }
    true
}

impl CandidateBinding {
    /// Check a candidate tuple's fields and that its date text names `date`.
    pub fn new(source_url: &SafeSourceUrl, scope: &str, value: &str, date: &CalendarDate, source_date_text: &str) -> (r: Result<CandidateBinding, SourceDocumentError>)
        ensures
            match r {
                Ok(b) => binding_outcome(source_url@, scope@, value@, date@, source_date_text@) == Ok::<BindingView, SourceDocumentError>(b@),
                Err(e) => binding_outcome(source_url@, scope@, value@, date@, source_date_text@) == Err::<BindingView, SourceDocumentError>(e),
            },
    {
        if !field_is_trimmed(scope) || !field_is_trimmed(value) || !field_is_trimmed(source_date_text) {
            return Err(SourceDocumentError::InvalidCandidate);
        }
        let parsed = match source_date::parse(source_date_text) {
            Ok(d) => d,
            Err(_) => {
                return Err(SourceDocumentError::InvalidCandidate);
            },
        };
        if !parsed.same_day(date) {
            return Err(SourceDocumentError::DateMismatch);
        }
        Ok(
            CandidateBinding {
                source_url: source_url.clone(),
                scope: scope.to_owned(),
                value: value.to_owned(),
                source_date_text: source_date_text.to_owned(),
            },
        )
    }

    /// The source the candidate claims.
    pub fn source_url(&self) -> (u: &SafeSourceUrl)
        ensures
            u@ == self@.source_url,
    {
        &self.source_url
    }

    /// The candidate's scope.
    pub fn scope(&self) -> (s: &str)
        ensures
            s@ == self@.scope,
    {
        self.scope.as_str()
    }

    /// The candidate's value.
    pub fn value(&self) -> (s: &str)
        ensures
            s@ == self@.value,
    {
        self.value.as_str()
    }

    /// The candidate's date text.
    pub fn source_date_text(&self) -> (s: &str)
        ensures
            s@ == self@.source_date_text,
    {
        self.source_date_text.as_str()
    }
}

/// A parsed source document.
#[derive(Debug)]
pub struct SourceDocument {
    url: SafeSourceUrl,
    sections: Vec<SourceSection>,
}

impl View for SourceDocument {
    type V = DocView;

    closed spec fn view(&self) -> DocView {
        DocView { url: self.url@, sections: section_views(self.sections@) }
    }
}

impl SourceDocument {
    #[verifier::type_invariant]
    closed spec fn consistent(self) -> bool {
        facts_consistent(self.url@, section_views(self.sections@))
    }

    /// Parse a fetched source body into its sections.
    pub fn from_text(url: SafeSourceUrl, body: &str) -> (r: Result<SourceDocument, SourceDocumentError>)
        ensures
            match r {
                Ok(d) => d@.url == url@ && spec_document_sections(url@, body@) == Some(d@.sections),
                Err(e) => spec_document_sections(url@, body@) is None && e == SourceDocumentError::InvalidStructure,
            },
    {
        let chars = chars_of(body);
        let trimmed = trim_chars(&chars);
        if trimmed.len() == 0 {
            return Err(SourceDocumentError::InvalidStructure);
        }
        let tab_name = chars_of("data-tab");
        let panel_name = chars_of("data-list-panel");
        let tabs = match elements_with_attribute(&chars, tab_name.as_slice()) {
            Ok(v) => v,
            Err(_) => {
                return Err(SourceDocumentError::InvalidStructure);
            },
        };
        let panels = match elements_with_attribute(&chars, panel_name.as_slice()) {
            Ok(v) => v,
            Err(_) => {
                return Err(SourceDocumentError::InvalidStructure);
            },
        };
        proof {
            lemma_document_sections_consistent(url@, body@);
        }
        if panels.len() > 0 {
            let sections = match paired_first_rows(&url, tabs, panels) {
                Ok(v) => v,
                Err(e) => {
                    return Err(e);
                },
            };
            return Ok(SourceDocument { url, sections });
        }
        let headings = match heading_sections(&chars) {
            Ok(h) => h,
            Err(_) => {
                return Err(SourceDocumentError::InvalidStructure);
            },
        };
        if headings.len() == 0 {
            return Err(SourceDocumentError::InvalidStructure);
        }
        let sections = match weak_section_list(&headings) {
            Ok(v) => v,
            Err(e) => {
                return Err(e);
            },
        };
        proof {
            assert(heading_views(headings@) =~= Seq::new(headings@.len(), |i: int| (headings@[i].0@, headings@[i].1@)));
        }
        Ok(SourceDocument { url, sections })
    }

    /// The document's source.
    pub fn url(&self) -> (u: &SafeSourceUrl)
        ensures
            u@ == self@.url,
    {
        &self.url
    }

    /// Whether exactly one section binds the candidate.
    pub fn verify(&self, candidate: &CandidateBinding) -> (r: Result<(), SourceDocumentError>)
        ensures
            r == verify_outcome(self@.sections, candidate@),
    {
        let ghost sv = section_views(self.sections@);
        let mut count: usize = 0;
        let mut i: usize = 0;
        proof {
            assert(sv.take(0) =~= Seq::<SectionView>::empty());
        }
        while i < self.sections.len()
            invariant
                sv == section_views(self.sections@),
                i <= self.sections@.len(),
                count <= i,
                count == binding_count(sv.take(i as int), candidate@),
            decreases self.sections@.len() - i,
        {
            let section = &self.sections[i];
            proof {
                assert(sv.take(i + 1).drop_last() =~= sv.take(i as int));
                assert(sv.take(i + 1).last() == section@);
            }
            if section.scope == candidate.scope
                && contains_exact_field(section.evidence.as_str(), candidate.value.as_str())
                && contains_exact_field(section.evidence.as_str(), candidate.source_date_text.as_str()) {
                count = count + 1;
            }
            i = i + 1;
        }
        proof {
            assert(sv.take(i as int) =~= sv);
        }
        if count == 1 {
            Ok(())
        } else if count == 0 {
            Err(SourceDocumentError::MissingBinding)
        } else {
            Err(SourceDocumentError::AmbiguousBinding)
        }
    }

    /// The one fact the document states for a scope.
    pub fn exact_fact(&self, scope: &str) -> (r: Result<Option<SourceFact>, SourceDocumentError>)
        ensures
            match r {
                Ok(Some(f)) => scope_fact(self@.sections, scope@) == Ok::<Option<FactView>, SourceDocumentError>(Some(f@)),
                Ok(None) => scope_fact(self@.sections, scope@) == Ok::<Option<FactView>, SourceDocumentError>(None),
                Err(e) => scope_fact(self@.sections, scope@) == Err::<Option<FactView>, SourceDocumentError>(e),
            },
            r matches Ok(Some(f)) ==> f@.scope == scope@ && f@.source_url == self@.url,
    {
        proof {
            use_type_invariant(self);
        }
        let ghost sv = section_views(self.sections@);
        let mut found: Option<SourceFact> = None;
        let mut i: usize = 0;
        proof {
            assert(sv.take(0) =~= Seq::<SectionView>::empty());
        }
        while i < self.sections.len()
            invariant
                sv == section_views(self.sections@),
                i <= self.sections@.len(),
                scope_fact(sv.take(i as int), scope@) == Ok::<Option<FactView>, SourceDocumentError>(
                    match found {
                        Some(f) => Some(f@),
                        None => None,
                    },
                ),
                facts_consistent(self@.url, sv),
                found matches Some(f) ==> f@.scope == scope@ && f@.source_url == self@.url,
            decreases self.sections@.len() - i,
        {
            let section = &self.sections[i];
            proof {
                assert(sv.take(i + 1).drop_last() =~= sv.take(i as int));
                assert(sv.take(i + 1).last() == section@);
            }
            if same_text(section.scope.as_str(), scope) {
                match &section.fact {
                    SourceFactCandidate::Fact(fact) => {
                        if found.is_some() {
                            proof {
                                lemma_scope_fact_err(sv, scope@, i + 1);
                            }
                            return Err(SourceDocumentError::AmbiguousBinding);
                        }
                        proof {
                            assert(section_consistent(self@.url, sv[i as int]));
                        }
                        found = Some(fact.clone());
                    },
                    SourceFactCandidate::Ambiguous => {
                        proof {
                            lemma_scope_fact_err(sv, scope@, i + 1);
                        }
                        return Err(SourceDocumentError::AmbiguousBinding);
                    },
                    SourceFactCandidate::NotApplicable => {},
                }
            }
            i = i + 1;
        }
        proof {
            assert(sv.take(i as int) =~= sv);
        }
        Ok(found)
    }
}

/// Whether `haystack[start..end]` is a whole token.
fn bounded_at(h: &Vec<char>, start: usize, end: usize) -> (r: bool)
    requires
        start <= end <= h@.len(),
    ensures
        r == field_bounded(h@, start as int, end as int),
{
    let before = slice_chars(h, 0, start);
    let after = slice_chars(h, end, h.len());
    proof {
        assert(before@ =~= h@.take(start as int));
        assert(after@ =~= h@.skip(end as int));
    }
    !continues_before(before.as_slice()) && !continues_after(after.as_slice())
}

/// Whether `needle` occurs in `haystack` as a whole token.
pub fn contains_exact_field(haystack: &str, needle: &str) -> (r: bool)
    ensures
        r == exact_field(haystack@, needle@),
{
    let h = chars_of(haystack);
    let n = chars_of(needle);
    let len = h.len();
    if n.len() == 0 {
        let mut pos: usize = 0;
        while pos < len
            invariant
                h@ == haystack@,
                n@ == needle@,
                len == h@.len(),
                n@.len() == 0,
                pos <= len,
                exact_field(h@, n@) == exact_from(h@, n@, pos as int),
            decreases len - pos,
        {
            if bounded_at(&h, pos, pos) {
                return true;
            }
            pos = pos + 1;
        }
        proof {
            assert(!exact_from(h@, n@, len as int + 1));
        }
        return bounded_at(&h, len, len);
    }
    let mut from: usize = 0;
    loop
        invariant
            h@ == haystack@,
            n@ == needle@,
            len == h@.len(),
            n@.len() > 0,
            from <= len,
            exact_field(h@, n@) == exact_from(h@, n@, from as int),
        decreases len + 1 - from,
    {
        match find_seq_exec(&h, n.as_slice(), from) {
            None => {
                return false;
            },
            Some(p) => {
                proof {
                    lemma_find_seq_bounds(h@, n@, from as int);
                }
                if bounded_at(&h, p, p + n.len()) {
                    return true;
                }
                from = p + n.len();
            },
        }
    }
}

/// Whether the text before a match continues a token.
pub fn continues_before(prefix: &[char]) -> (r: bool)
    ensures
        r == token_continues_before(prefix@),
{
    let n = prefix.len();
    if n == 0 {
        return false;
    }
    let last = prefix[n - 1];
    is_alphanumeric(last) || (is_joiner(last) && n > 1 && is_alphanumeric(prefix[n - 2]))
}

/// Whether the text after a match continues a token.
pub fn continues_after(suffix: &[char]) -> (r: bool)
    ensures
        r == token_continues_after(suffix@),
{
    let n = suffix.len();
    if n == 0 {
        return false;
    }
    let first = suffix[0];
    is_alphanumeric(first) || (is_joiner(first) && n > 1 && is_alphanumeric(suffix[1]))
}

/// Whether a character joins the parts of a token.
pub fn is_joiner(character: char) -> (r: bool)
    ensures
        r == joiner(character),
{
    character == '.' || character == '-' || character == '_' || character == '+'
}

} // verus!
