use agy_search::calendar_date::CalendarDate;
use agy_search::source_contract::{SourceContract, SourceContractError};
use agy_search::source_document::{
    contains_exact_field, CandidateBinding, SourceDocument, SourceDocumentError,
};
use agy_search::source_url::SafeSourceUrl;

fn url(text: &str) -> SafeSourceUrl {
    SafeSourceUrl::parse(text).expect("valid test URL")
}

fn date(text: &str) -> CalendarDate {
    CalendarDate::parse(text).expect("valid test date")
}

fn document(source: &SafeSourceUrl, body: &str) -> SourceDocument {
    SourceDocument::from_text(source.clone(), body).expect("valid test document")
}

fn contract(documents: Vec<SourceDocument>) -> SourceContract {
    SourceContract::from_documents(documents).expect("valid test contract")
}

fn binding(
    source: &SafeSourceUrl,
    scope: &str,
    value: &str,
    day: &CalendarDate,
    text: &str,
) -> CandidateBinding {
    CandidateBinding::new(source, scope, value, day, text).expect("valid test binding")
}

#[test]
fn extracts_only_unambiguous_strongly_structured_local_facts() {
    let url = url("https://example.com/local");
    let document = document(
        &url,
        "<button data-tab=\"alpha\">alpha</button>\
         <button data-tab=\"beta\">beta</button>\
         <div data-list-panel=\"alpha\"><div data-section-row>\
         <span data-date-pin>alpha-v2 August 5, 2026</span></div></div>\
         <div data-list-panel=\"beta\"><div data-section-row>\
         <span data-date-pin>beta-v1 2026-08-04</span></div></div>",
    );
    let contract = contract(vec![document]);

    let alpha = contract
        .exact_fact("alpha", "alpha-v2")
        .expect("lookup must succeed")
        .expect("alpha fact missing");
    assert_eq!(alpha.scope(), "alpha");
    assert_eq!(alpha.value(), "alpha-v2");
    assert_eq!(alpha.date().as_str(), "2026-08-05");
    assert_eq!(alpha.source_date_text(), "August 5, 2026");
    assert_eq!(alpha.source_url(), &url);
    assert!(contract
        .exact_fact("alpha", "alpha-v1")
        .expect("lookup must succeed")
        .is_none());
    let beta = contract
        .exact_fact("beta", "beta-v1")
        .expect("lookup must succeed")
        .expect("beta fact missing");
    assert_eq!(beta.date().as_str(), "2026-08-04");
}

#[test]
fn local_fact_lookup_falls_back_for_weak_or_contaminated_rows_and_rejects_duplicates() {
    let weak_url = url("https://example.com/weak");
    let weak = document(
        &weak_url,
        "<button data-tab=\"plain\">plain</button>\
         <button data-tab=\"numeric\">numeric</button>\
         <div data-list-panel=\"plain\"><div data-section-row>v2 August 5, 2026</div></div>\
         <div data-list-panel=\"numeric\"><div data-section-row>\
         <span data-date-pin>20260805 August 5, 2026</span></div></div>",
    );
    let weak_contract = contract(vec![weak]);
    assert!(weak_contract
        .exact_fact("plain", "v2")
        .expect("lookup must succeed")
        .is_none());
    assert!(weak_contract
        .exact_fact("numeric", "20260805")
        .expect("lookup must succeed")
        .is_none());

    let duplicate_url = url("https://example.com/duplicate");
    let duplicate = document(
        &duplicate_url,
        "<button data-tab=\"one\">same</button><button data-tab=\"two\">same</button>\
         <div data-list-panel=\"one\"><div data-section-row>\
         <span data-date-pin>v1 August 5, 2026</span></div></div>\
         <div data-list-panel=\"two\"><div data-section-row>\
         <span data-date-pin>v2 August 6, 2026</span></div></div>",
    );
    let duplicate_contract = contract(vec![duplicate]);
    assert!(duplicate_contract.exact_fact("same", "v1").is_err());
}

#[test]
fn verifies_generic_panel_and_plain_text_bindings_without_borrowing() {
    let panel_url = url("https://example.com/panels");
    let panel = document(
        &panel_url,
        "<div data-tab-buttons></div>\
         <button data-tab=\"cli\">Example CLI</button>\
         <button data-tab=\"sdk\">Example SDK</button>\
         <div data-list-panel=\"cli\"><div data-section-row>1.2.3 August 3, 2026</div>\
         <div data-section-row>0.9.0 January 1, 2025</div></div>\
         <div data-list-panel=\"sdk\"><div data-section-row>9.9.9 July 27, 2026</div></div>",
    );
    let text_url = url("https://example.com/text");
    let text = document(&text_url, "<h2>Plain Track</h2>released 4.5.6 on 2026-08-01.");
    let contract = contract(vec![panel, text]);
    let cli_date = date("2026-08-03");
    let plain_date = date("2026-08-01");

    assert_eq!(
        contract.verify(&binding(&panel_url, "Example CLI", "1.2.3", &cli_date, "August 3, 2026")),
        Ok(())
    );
    assert_eq!(
        contract.verify(&binding(&text_url, "Plain Track", "4.5.6", &plain_date, "2026-08-01")),
        Ok(())
    );

    let borrowed = binding(&panel_url, "Example CLI", "9.9.9", &cli_date, "August 3, 2026");
    assert!(contract.verify(&borrowed).is_err());
    let stale_date = date("2025-01-01");
    let stale = binding(&panel_url, "Example CLI", "0.9.0", &stale_date, "January 1, 2025");
    assert!(contract.verify(&stale).is_err());
    let partial_scope = binding(&panel_url, "CLI", "1.2.3", &cli_date, "August 3, 2026");
    assert!(contract.verify(&partial_scope).is_err());
    let partial_value = binding(&panel_url, "Example CLI", "1.2", &cli_date, "August 3, 2026");
    assert!(contract.verify(&partial_value).is_err());
}

#[test]
fn rejects_ambiguous_swapped_date_and_non_allowlisted_bindings() {
    let allowed = url("https://example.com/ambiguous");
    let document_one = document(
        &allowed,
        "<button data-tab=\"one\">Track</button><button data-tab=\"two\">Track</button>\
         <div data-list-panel=\"one\"><div data-section-row>1.0.0 August 3, 2026</div></div>\
         <div data-list-panel=\"two\"><div data-section-row>1.0.0 August 3, 2026</div></div>",
    );
    let contract = contract(vec![document_one]);
    let correct = date("2026-08-03");
    let swapped = date("2026-08-02");

    assert!(contract
        .verify(&binding(&allowed, "Track", "1.0.0", &correct, "August 3, 2026"))
        .is_err());
    assert!(CandidateBinding::new(&allowed, "Track", "1.0.0", &swapped, "August 3, 2026").is_err());
    let outside = url("https://outside.example/release");
    assert!(contract
        .verify(&binding(&outside, "Track", "1.0.0", &correct, "August 3, 2026"))
        .is_err());
    let split_url = url("https://example.com/headings");
    let split_document = document(
        &split_url,
        "<h2>Track A</h2>1.0.0<h2>Track B</h2>August 3, 2026",
    );
    let split_contract = contract_of(split_document);
    assert!(split_contract
        .verify(&binding(&split_url, "Track A", "1.0.0", &correct, "August 3, 2026"))
        .is_err());
}

fn contract_of(document: SourceDocument) -> SourceContract {
    SourceContract::from_documents(vec![document]).expect("valid test contract")
}

#[test]
fn rejects_structured_evidence_hidden_in_inert_or_quoted_html() {
    let url = url("https://example.com/inert-markup");
    let date = date("2026-08-05");
    let binding = binding(&url, "hidden-track", "hidden-v2", &date, "August 5, 2026");
    let fake_evidence = "<button data-tab=\"hidden\">hidden-track</button>\
        <div data-list-panel=\"hidden\"><div data-section-row>\
        <span data-date-pin>hidden-v2 August 5, 2026</span></div></div>";
    let documents = [
        format!("<script>{fake_evidence}</script>"),
        format!("<style>{fake_evidence}</style>"),
        format!("<template>{fake_evidence}</template>"),
        format!("<noscript>{fake_evidence}</noscript>"),
        format!("<!--{fake_evidence}-->"),
        format!("<div title='{fake_evidence}'></div>"),
        format!("<script>{fake_evidence}</script"),
        format!("<div title='{fake_evidence}</div>"),
    ];

    for document in documents {
        let verified = match SourceDocument::from_text(url.clone(), &document) {
            Err(_) => false,
            Ok(parsed) => match SourceContract::from_documents(vec![parsed]) {
                Err(_) => false,
                Ok(contract) => contract.verify(&binding).is_ok(),
            },
        };
        assert!(!verified, "inert payload verified: {document}");
    }
}

#[test]
fn verify_reports_each_refusal_reason() {
    let source = url("https://example.com/reasons");
    let doc = document(
        &source,
        "<h2>Track</h2>1.0.0 August 3, 2026<h2>Other</h2>1.0.0 August 3, 2026",
    );
    let contract = contract(vec![doc]);
    let day = date("2026-08-03");
    assert_eq!(
        contract.verify(&binding(&source, "Track", "1.0.0", &day, "August 3, 2026")),
        Ok(())
    );
    assert_eq!(
        contract.verify(&binding(&source, "Track", "2.0.0", &day, "August 3, 2026")),
        Err(SourceContractError::Document(SourceDocumentError::MissingBinding))
    );
    let elsewhere = url("https://example.com/elsewhere");
    assert_eq!(
        contract.verify(&binding(&elsewhere, "Track", "1.0.0", &day, "August 3, 2026")),
        Err(SourceContractError::SourceNotAllowed)
    );
}

#[test]
fn allowlist_must_be_non_empty_and_without_duplicates() {
    assert_eq!(
        SourceContract::from_documents(vec![]).err(),
        Some(SourceContractError::InvalidAllowlist)
    );
    let source = url("https://example.com/twice");
    let first = document(&source, "<h2>A</h2>text");
    let second = document(&source, "<h2>B</h2>text");
    assert_eq!(
        SourceContract::from_documents(vec![first, second]).err(),
        Some(SourceContractError::InvalidAllowlist)
    );
}

#[test]
fn candidate_fields_must_be_trimmed_and_name_the_same_day() {
    let source = url("https://example.com/fields");
    let day = date("2026-08-03");
    assert_eq!(
        CandidateBinding::new(&source, " Track", "1.0.0", &day, "August 3, 2026").err(),
        Some(SourceDocumentError::InvalidCandidate)
    );
    assert_eq!(
        CandidateBinding::new(&source, "Track", "", &day, "August 3, 2026").err(),
        Some(SourceDocumentError::InvalidCandidate)
    );
    assert_eq!(
        CandidateBinding::new(&source, "Track", "1.0.0", &day, "someday").err(),
        Some(SourceDocumentError::InvalidCandidate)
    );
    assert_eq!(
        CandidateBinding::new(&source, "Track", "1.0.0", &day, "August 4, 2026").err(),
        Some(SourceDocumentError::DateMismatch)
    );
}

#[test]
fn blank_or_unstructured_documents_are_refused() {
    let source = url("https://example.com/blank");
    assert_eq!(
        SourceDocument::from_text(source.clone(), "   ").err().map(|e| e.message()),
        Some("source document structure was invalid")
    );
    assert_eq!(
        SourceDocument::from_text(source, "plain text without headings").err(),
        Some(SourceDocumentError::InvalidStructure)
    );
}

#[test]
fn exact_fields_respect_token_boundaries() {
    assert!(contains_exact_field("released 1.2.3 today", "1.2.3"));
    assert!(!contains_exact_field("released 1.2.3 today", "1.2"));
    assert!(!contains_exact_field("v1.2.3", "1.2.3"));
    assert!(contains_exact_field("x 1.2 1.2.3", "1.2"));
    assert!(contains_exact_field("(1.2.3).", "1.2.3"));
    assert!(!contains_exact_field("release-1.2.3", "1.2.3"));
    assert!(contains_exact_field("", ""));
    assert!(!contains_exact_field("ab", ""));
}
