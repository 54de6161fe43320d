//! Source-document section construction for paired tabs and panels.

use vstd::prelude::*;

use crate::source_document::SourceDocumentError;
use crate::source_document_html::attribute_selection::{
    element_views, elements_with_attribute, spec_elements_with_attribute, AttributedElement,
    ElementView,
};
use crate::source_document_html::text_normalization::{normalize_text, spec_normalize_text};
use crate::source_fact::{first_row_candidate, CandidateView, SourceFact, SourceFactCandidate};
use crate::source_url::SafeSourceUrl;
use crate::text::{byte_len, chars_equal, chars_of, string_from_chars, utf8_len};

verus! {

/// The largest section, scope and evidence together, in UTF-8 bytes.
pub const MAX_SECTION_BYTES: u128 = 8192;

/// One scoped piece of source evidence and the fact its first row states.
pub struct SectionView {
    pub scope: Seq<char>,
    pub evidence: Seq<char>,
    pub fact: CandidateView,
}

/// A section, when its scope and evidence are non-empty and together fit the size limit.
pub open spec fn section_of(scope: Seq<char>, evidence: Seq<char>, fact: CandidateView) -> Option<SectionView> {
    if scope.len() == 0 || evidence.len() == 0 || byte_len(scope) + byte_len(evidence) > MAX_SECTION_BYTES {
        None
    } else {
        Some(SectionView { scope, evidence, fact })
    }
}

/// The section a panel's first row makes: its normalized text and the fact it states.
pub open spec fn strong_section(url: Seq<char>, scope: Seq<char>, row: Seq<char>) -> Option<SectionView> {
    section_of(scope, spec_normalize_text(row), first_row_candidate(url, scope, row))
}

/// The section a panel makes under `label`: the one its first row makes.
pub open spec fn panel_row_outcome(url: Seq<char>, label: Seq<char>, content: Seq<char>) -> Option<SectionView> {
    match spec_elements_with_attribute(content, "data-section-row"@) {
        None => None,
        Some(rows) => if rows.len() == 0 {
            None
        } else {
            strong_section(url, label, rows[0].content)
        },
    }
}

/// Every tab names a key and a non-empty label, and no key names two tabs.
pub open spec fn tabs_well_formed(tabs: Seq<ElementView>) -> bool {
    &&& forall|i: int|
        0 <= i < tabs.len() ==> (#[trigger] tabs[i]).value is Some && spec_normalize_text(
            tabs[i].content,
        ).len() > 0
    &&& forall|i: int, j: int|
        0 <= i < j < tabs.len() ==> (#[trigger] tabs[i]).value != (#[trigger] tabs[j]).value
}

/// The normalized label of the tab keyed `key`.
pub open spec fn label_of(tabs: Seq<ElementView>, key: Seq<char>) -> Option<Seq<char>> {
    if exists|i: int| 0 <= i < tabs.len() && (#[trigger] tabs[i]).value == Some(key) {
        let i = choose|i: int| 0 <= i < tabs.len() && (#[trigger] tabs[i]).value == Some(key);
        Some(spec_normalize_text(tabs[i].content))
    } else {
        None
    }
}

/// What one panel adds after the `earlier` panels: nothing (`Some(None)`) when no tab has its
/// key, else the section its first row makes; `None` when the panel is refused.
pub open spec fn panel_step(url: Seq<char>, tabs: Seq<ElementView>, earlier: Seq<ElementView>, panel: ElementView) -> Option<Option<SectionView>> {
    match panel.value {
        None => None,
        Some(key) => if exists|j: int| 0 <= j < earlier.len() && (#[trigger] earlier[j]).value == Some(key) {
            None
        } else {
            match label_of(tabs, key) {
                None => Some(None),
                Some(label) => match panel_row_outcome(url, label, panel.content) {
                    None => None,
                    Some(section) => Some(Some(section)),
                },
            }
        },
    }
}

/// The sections of the panels, in order: every panel names a key no earlier panel named;
/// a panel whose key no tab has is skipped; any other needs a first row that makes a section.
pub open spec fn panel_sections(url: Seq<char>, tabs: Seq<ElementView>, panels: Seq<ElementView>) -> Option<Seq<SectionView>>
    decreases panels.len(),
{
    if panels.len() == 0 {
        Some(Seq::empty())
    } else {
        match panel_sections(url, tabs, panels.drop_last()) {
            None => None,
            Some(done) => match panel_step(url, tabs, panels.drop_last(), panels.last()) {
                None => None,
                Some(None) => Some(done),
                Some(Some(section)) => Some(done.push(section)),
            },
        }
    }
}

/// The sections that paired tabs and panels make; there must be at least one.
pub open spec fn spec_paired_first_rows(url: Seq<char>, tabs: Seq<ElementView>, panels: Seq<ElementView>) -> Option<Seq<SectionView>> {
    if !tabs_well_formed(tabs) {
        None
    } else {
        match panel_sections(url, tabs, panels) {
            Some(sections) => if sections.len() > 0 {
                Some(sections)
            } else {
                None
            },
            None => None,
        }
    }
}

/// One scoped piece of source evidence.
#[derive(Debug)]
pub struct SourceSection {
    pub scope: String,
    pub evidence: String,
    pub fact: SourceFactCandidate,
}

impl View for SourceSection {
    type V = SectionView;

    open spec fn view(&self) -> SectionView {
        SectionView { scope: self.scope@, evidence: self.evidence@, fact: self.fact@ }
    }
}

/// The views of a sequence of sections.
pub open spec fn section_views(v: Seq<SourceSection>) -> Seq<SectionView> {
    Seq::new(v.len(), |i: int| v[i]@)
}

impl SourceSection {
    /// A section that states no fact.
    pub fn weak(scope: String, evidence: String) -> (r: Result<SourceSection, SourceDocumentError>)
        ensures
            match r {
                Ok(s) => section_of(scope@, evidence@, CandidateView::NotApplicable) == Some(s@),
                Err(e) => section_of(scope@, evidence@, CandidateView::NotApplicable) is None
                    && e == SourceDocumentError::InvalidStructure,
            },
    {
        SourceSection::new(scope, evidence, SourceFactCandidate::NotApplicable)
    }

    /// The section a panel's first row makes.
    pub fn strong(source_url: &SafeSourceUrl, scope: String, row: &str) -> (r: Result<SourceSection, SourceDocumentError>)
        ensures
            match r {
                Ok(s) => strong_section(source_url@, scope@, row@) == Some(s@),
                Err(e) => strong_section(source_url@, scope@, row@) is None
                    && e == SourceDocumentError::InvalidStructure,
            },
    {
        let row_chars = chars_of(row);
        let evidence = string_from_chars(normalize_text(&row_chars).as_slice());
        let fact = SourceFact::from_first_row(source_url, scope.as_str(), row);
        SourceSection::new(scope, evidence, fact)
    }

    /// A section, when its scope and evidence are non-empty and fit the size limit.
    pub fn new(scope: String, evidence: String, fact: SourceFactCandidate) -> (r: Result<SourceSection, SourceDocumentError>)
        ensures
            match r {
                Ok(s) => section_of(scope@, evidence@, fact@) == Some(s@),
                Err(e) => section_of(scope@, evidence@, fact@) is None
                    && e == SourceDocumentError::InvalidStructure,
            },
    {
        let scope_chars = chars_of(scope.as_str());
        let evidence_chars = chars_of(evidence.as_str());
        if scope_chars.len() == 0 || evidence_chars.len() == 0 {
            return Err(SourceDocumentError::InvalidStructure);
        }
        let scope_bytes = utf8_len(scope_chars.as_slice());
        let evidence_bytes = utf8_len(evidence_chars.as_slice());
        if scope_bytes > MAX_SECTION_BYTES || evidence_bytes > MAX_SECTION_BYTES
            || scope_bytes + evidence_bytes > MAX_SECTION_BYTES {
            return Err(SourceDocumentError::InvalidStructure);
        }
        Ok(SourceSection { scope, evidence, fact })
    }
}

/// The index of `key` among `keys`.
fn find_key(keys: &Vec<Vec<char>>, key: &Vec<char>) -> (r: Option<usize>)
    ensures
        r matches Some(k) ==> k < keys@.len() && keys@[k as int]@ == key@,
        r is None ==> forall|k: int| 0 <= k < keys@.len() ==> (#[trigger] keys@[k])@ != key@,
{
    let mut k: usize = 0;
    while k < keys.len()
        invariant
            k <= keys@.len(),
            forall|j: int| 0 <= j < k ==> (#[trigger] keys@[j])@ != key@,
        decreases keys@.len() - k,
    {
        if chars_equal(keys[k].as_slice(), key.as_slice()) {
            return Some(k);
        }
        k = k + 1;
    }
    None
}

/// Whether an earlier panel already named `key`.
fn key_seen(seen: &Vec<Vec<char>>, key: &Vec<char>, Ghost(earlier): Ghost<Seq<ElementView>>) -> (r: bool)
    requires
        seen@.len() == earlier.len(),
        forall|k: int| 0 <= k < earlier.len() ==> earlier[k].value == Some((#[trigger] seen@[k])@),
    ensures
        r == exists|m: int| 0 <= m < earlier.len() && (#[trigger] earlier[m]).value == Some(key@),
{
    match find_key(seen, key) {
        Some(k) => {
            proof {
                assert(earlier[k as int].value == Some(key@));
            }
            true
        },
        None => {
            proof {
                assert(!exists|m: int| 0 <= m < earlier.len() && (#[trigger] earlier[m]).value == Some(key@)) by {
                    if exists|m: int| 0 <= m < earlier.len() && (#[trigger] earlier[m]).value == Some(key@) {
                        let m = choose|m: int| 0 <= m < earlier.len() && (#[trigger] earlier[m]).value == Some(key@);
                        assert(seen@[m]@ != key@);
                    }
                }
            }
            false
        },
    }
}

/// The index of the tab keyed `key`, whose label is the key's label.
fn label_index(keys: &Vec<Vec<char>>, key: &Vec<char>, Ghost(tv): Ghost<Seq<ElementView>>) -> (r: Option<usize>)
    requires
        tabs_well_formed(tv),
        keys@.len() == tv.len(),
        forall|k: int| 0 <= k < tv.len() ==> tv[k].value == Some((#[trigger] keys@[k])@),
    ensures
        r matches Some(k) ==> k < tv.len() && label_of(tv, key@) == Some(spec_normalize_text(tv[k as int].content)),
        r is None ==> label_of(tv, key@) is None,
{
    match find_key(keys, key) {
        None => {
            proof {
                assert(!exists|m: int| 0 <= m < tv.len() && (#[trigger] tv[m]).value == Some(key@)) by {
                    if exists|m: int| 0 <= m < tv.len() && (#[trigger] tv[m]).value == Some(key@) {
                        let m = choose|m: int| 0 <= m < tv.len() && (#[trigger] tv[m]).value == Some(key@);
                        assert(keys@[m]@ != key@);
                    }
                }
            }
            None
        },
        Some(k) => {
            proof {
                assert(tv[k as int].value == Some(key@));
                let c = choose|m: int| 0 <= m < tv.len() && (#[trigger] tv[m]).value == Some(key@);
                assert(c == k) by {
                    if c < k {
                        assert(tv[c].value != tv[k as int].value);
                    } else if c > k {
                        assert(tv[k as int].value != tv[c].value);
                    }
                }
            }
            Some(k)
        },
    }
}

/// The section a panel makes under `label`: the one its first row makes.
fn panel_row_section(source_url: &SafeSourceUrl, label: &Vec<char>, content: &Vec<char>) -> (r: Result<SourceSection, SourceDocumentError>)
    ensures
        match r {
            Ok(s) => panel_row_outcome(source_url@, label@, content@) == Some(s@),
            Err(e) => panel_row_outcome(source_url@, label@, content@) is None
                && e == SourceDocumentError::InvalidStructure,
        },
{
    let wanted = chars_of("data-section-row");
    let rows = match elements_with_attribute(content, wanted.as_slice()) {
        Ok(rows) => rows,
        Err(_) => {
            return Err(SourceDocumentError::InvalidStructure);
        },
    };
    if rows.len() == 0 {
        return Err(SourceDocumentError::InvalidStructure);
    }
    proof {
        assert(element_views(rows@)[0] == rows@[0]@);
    }
    let scope = string_from_chars(label.as_slice());
    let row = string_from_chars(rows[0].content.as_slice());
    SourceSection::strong(source_url, scope, row.as_str())
}

/// What one panel adds: its key and, when a tab has that key, the section its first row makes.
fn panel_section(
    source_url: &SafeSourceUrl,
    keys: &Vec<Vec<char>>,
    labels: &Vec<Vec<char>>,
    seen: &Vec<Vec<char>>,
    panel: &AttributedElement,
    Ghost(tv): Ghost<Seq<ElementView>>,
    Ghost(earlier): Ghost<Seq<ElementView>>,
) -> (r: Result<(Vec<char>, Option<SourceSection>), SourceDocumentError>)
    requires
        tabs_well_formed(tv),
        keys@.len() == tv.len(),
        labels@.len() == tv.len(),
        forall|k: int| 0 <= k < tv.len() ==> tv[k].value == Some((#[trigger] keys@[k])@),
        forall|k: int| 0 <= k < tv.len() ==> (#[trigger] labels@[k])@ == spec_normalize_text(tv[k].content),
        seen@.len() == earlier.len(),
        forall|k: int| 0 <= k < earlier.len() ==> earlier[k].value == Some((#[trigger] seen@[k])@),
    ensures
        match r {
            Ok((key, None)) => panel@.value == Some(key@) && panel_step(source_url@, tv, earlier, panel@) == Some(None::<SectionView>),
            Ok((key, Some(s))) => panel@.value == Some(key@) && panel_step(source_url@, tv, earlier, panel@) == Some(Some(s@)),
            Err(e) => panel_step(source_url@, tv, earlier, panel@) is None && e == SourceDocumentError::InvalidStructure,
        },
{
    let key = match &panel.value {
        Some(v) => v.clone(),
        None => {
            return Err(SourceDocumentError::InvalidStructure);
        },
    };
    if key_seen(seen, &key, Ghost(earlier)) {
        return Err(SourceDocumentError::InvalidStructure);
    }
    match label_index(keys, &key, Ghost(tv)) {
        None => Ok((key, None)),
        Some(k) => {
            let section = match panel_row_section(source_url, &labels[k], &panel.content) {
                Ok(section) => section,
                Err(e) => {
                    return Err(e);
                },
            };
            Ok((key, Some(section)))
        },
    }
}

/// Once a prefix of the panels is refused, all of them are.
proof fn lemma_panel_sections_none(url: Seq<char>, tv: Seq<ElementView>, pv: Seq<ElementView>, k: int)
    requires
        0 <= k <= pv.len(),
        panel_sections(url, tv, pv.take(k)) is None,
    ensures
        panel_sections(url, tv, pv) is None,
    decreases pv.len() - k,
{
    if k < pv.len() {
        assert(pv.take(k + 1).drop_last() =~= pv.take(k));
        lemma_panel_sections_none(url, tv, pv, k + 1);
    } else {
        assert(pv.take(k) =~= pv);
    }
}

/// The sections of paired tabs and panels: each panel's first row, under its tab's label.
pub fn paired_first_rows(source_url: &SafeSourceUrl, tabs: Vec<AttributedElement>, panels: Vec<AttributedElement>) -> (r: Result<Vec<SourceSection>, SourceDocumentError>)
    ensures
        match r {
            Ok(v) => spec_paired_first_rows(source_url@, element_views(tabs@), element_views(panels@))
                == Some(section_views(v@)),
            Err(e) => spec_paired_first_rows(source_url@, element_views(tabs@), element_views(panels@)) is None
                && e == SourceDocumentError::InvalidStructure,
        },
{
    let ghost tv = element_views(tabs@);
    let ghost pv = element_views(panels@);
    let mut keys: Vec<Vec<char>> = Vec::new();
    let mut labels: Vec<Vec<char>> = Vec::new();
    let mut i: usize = 0;
    while i < tabs.len()
        invariant
            tv == element_views(tabs@),
            i <= tabs@.len(),
            keys@.len() == i,
            labels@.len() == i,
            forall|k: int| 0 <= k < i ==> tv[k].value == Some((#[trigger] keys@[k])@),
            forall|k: int| 0 <= k < i ==> (#[trigger] labels@[k])@ == spec_normalize_text(tv[k].content),
            tabs_well_formed(tv.take(i as int)),
        decreases tabs@.len() - i,
    {
        let tab = &tabs[i];
        proof {
            assert(tv[i as int] == tab@);
        }
        let key = match &tab.value {
            Some(v) => v.clone(),
            None => {
                proof {
                    assert(tv[i as int].value is None);
                }
                return Err(SourceDocumentError::InvalidStructure);
            },
        };
        let label = normalize_text(&tab.content);
        if label.len() == 0 {
            return Err(SourceDocumentError::InvalidStructure);
        }
        match find_key(&keys, &key) {
            Some(k) => {
                proof {
                    assert(tv[k as int].value == tv[i as int].value);
                }
                return Err(SourceDocumentError::InvalidStructure);
            },
            None => {},
        }
        proof {
            let t = tv.take(i + 1);
            assert forall|a: int, b: int| 0 <= a < b < t.len() implies (#[trigger] t[a]).value != (#[trigger] t[b]).value by {
                if b == i {
                    assert(keys@[a]@ != key@);
                } else {
                    assert(tv.take(i as int)[a] == t[a]);
                    assert(tv.take(i as int)[b] == t[b]);
                }
            }
            assert forall|a: int| 0 <= a < t.len() implies (#[trigger] t[a]).value is Some && spec_normalize_text(t[a].content).len() > 0 by {
                if a < i {
                    assert(tv.take(i as int)[a] == t[a]);
                }
            }
        }
        keys.push(key);
        labels.push(label);
        i = i + 1;
    }
    proof {
        assert(tv.take(i as int) =~= tv);
    }
    let mut seen: Vec<Vec<char>> = Vec::new();
    let mut sections: Vec<SourceSection> = Vec::new();
    let mut j: usize = 0;
    proof {
        assert(pv.take(0) =~= Seq::<ElementView>::empty());
        assert(section_views(sections@) =~= Seq::<SectionView>::empty());
    }
    while j < panels.len()
        invariant
            tv == element_views(tabs@),
            pv == element_views(panels@),
            tabs_well_formed(tv),
            keys@.len() == tv.len(),
            labels@.len() == tv.len(),
            forall|k: int| 0 <= k < tv.len() ==> tv[k].value == Some((#[trigger] keys@[k])@),
            forall|k: int| 0 <= k < tv.len() ==> (#[trigger] labels@[k])@ == spec_normalize_text(tv[k].content),
            j <= panels@.len(),
            seen@.len() == j,
            forall|k: int| 0 <= k < j ==> pv[k].value == Some((#[trigger] seen@[k])@),
            panel_sections(source_url@, tv, pv.take(j as int)) == Some(section_views(sections@)),
        decreases panels@.len() - j,
    {
        let panel = &panels[j];
        let ghost earlier = pv.take(j as int);
        proof {
            assert(pv[j as int] == panel@);
            assert(pv.take(j + 1).drop_last() =~= earlier);
            assert(pv.take(j + 1).last() == panel@);
            assert forall|k: int| 0 <= k < j implies earlier[k].value == Some((#[trigger] seen@[k])@) by {
                assert(earlier[k] == pv[k]);
            }
        }
        let (key, added) = match panel_section(source_url, &keys, &labels, &seen, panel, Ghost(tv), Ghost(earlier)) {
            Ok(step) => step,
            Err(e) => {
                proof {
                    lemma_panel_sections_none(source_url@, tv, pv, j as int + 1);
                }
                return Err(e);
            },
        };
        match added {
            None => {},
            Some(section) => {
                let ghost before = section_views(sections@);
                sections.push(section);
                proof {
                    assert(section_views(sections@) =~= before.push(section_views(sections@).last()));
                }
            },
        }
        seen.push(key);
        j = j + 1;
    }
    proof {
        assert(pv.take(j as int) =~= pv);
    }
    if sections.len() == 0 {
        return Err(SourceDocumentError::InvalidStructure);
    }
    Ok(sections)
}

} // verus!
