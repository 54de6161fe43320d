use agy_search::calendar_date::CalendarDate;
use agy_search::error::AgyError;
use agy_search::http_url::HttpUrl;
use agy_search::response::collection_validation::{bounded, evidence_audit, unique, EvidenceAuditError};
use agy_search::response::public_dates::{validate_standard_provenance, validate_syntax};
use agy_search::response_models::{
    EvidenceAudit, MapLink, MapResponse, ResearchFinding, ResearchResponse, ResponseDocument,
    ScopeEvidence, SearchResponse, WebSource,
};

fn http_url(value: &str) -> HttpUrl {
    HttpUrl::parse(value).expect("test URL must parse")
}

fn source(date: Option<&str>, last_updated: Option<&str>) -> WebSource {
    WebSource {
        title: "RFC".to_owned(),
        url: http_url("https://www.rfc-editor.org/rfc/rfc2549"),
        snippet: "RFC publication".to_owned(),
        date: date.map(str::to_owned),
        last_updated: last_updated.map(str::to_owned),
    }
}

fn audit(date: &str, source_date_text: &str, evidence_excerpt: &str) -> EvidenceAudit {
    EvidenceAudit {
        candidates: vec![ScopeEvidence {
            scope: "RFC publication".to_owned(),
            claim: "Published".to_owned(),
            url: http_url("https://www.rfc-editor.org/rfc/rfc2549"),
            date: Some(CalendarDate::parse(date).expect("test date must parse")),
            value: None,
            source_date_text: Some(source_date_text.to_owned()),
            evidence_excerpt: Some(evidence_excerpt.to_owned()),
        }],
        coverage_complete: true,
        conclusion: "RFC date".to_owned(),
    }
}

#[test]
fn rejects_public_day_when_source_text_only_names_month_and_year() {
    let sources = vec![source(Some("2013-02-20"), None)];
    let evidence = audit("2013-02-20", "February 2013", "Published February 2013");

    let result = validate_standard_provenance(&sources, &evidence);

    assert!(matches!(result, Err(AgyError::OutputInvalid)));
}

#[test]
fn accepts_public_date_bound_to_unambiguous_english_full_date() {
    let sources = vec![source(Some("1999-06-01"), None)];
    let evidence = audit("1999-06-01", "June 1, 1999", "Published June 1, 1999");

    let result = validate_standard_provenance(&sources, &evidence);

    assert!(result.is_ok());
}

#[test]
fn rejects_malformed_public_update_date() {
    let sources = vec![source(None, Some("2026-13-40"))];

    let result = validate_syntax(&sources);

    assert!(matches!(result, Err(AgyError::OutputInvalid)));
}

#[test]
fn accepts_null_public_date_metadata() {
    let sources = vec![source(None, None)];

    let result = validate_syntax(&sources);

    assert!(result.is_ok());
}

#[test]
fn syntax_allows_a_recoverable_public_date_before_standard_provenance() {
    let sources = vec![source(Some("2026-08-03"), None)];
    let evidence = audit("2026-07-29", "July 29, 2026", "Published July 29, 2026");

    let syntax = validate_syntax(&sources);
    let provenance = validate_standard_provenance(&sources, &evidence);

    assert!(syntax.is_ok());
    assert!(matches!(provenance, Err(AgyError::OutputInvalid)));
}

fn link(url: &str) -> MapLink {
    MapLink { url: http_url(url), title: "result".to_owned(), depth: 0 }
}

#[test]
fn grounding_redirects_deduplicate_in_first_seen_order() {
    let first = "https://vertexaisearch.cloud.google.com/grounding-api-redirect/first#fragment";
    let second = "https://vertexaisearch.cloud.google.com/grounding-api-redirect/second";
    let response = ResponseDocument::SiteMap(MapResponse {
        base_url: http_url("https://example.com"),
        results: vec![link(first), link(second), link(first)],
    });

    assert_eq!(response.grounding_redirects(), vec![http_url(first), http_url(second)]);
}

#[test]
fn replacing_a_url_rewrites_every_occurrence_and_nothing_else() {
    let transport = "https://vertexaisearch.cloud.google.com/grounding-api-redirect/token";
    let mut response = ResponseDocument::SiteMap(MapResponse {
        base_url: http_url("https://example.com"),
        results: vec![link(transport), link("https://example.com/a"), link(transport)],
    });

    response.replace_url(&http_url(transport), &http_url("https://example.com/direct"));

    let ResponseDocument::SiteMap(map) = &response else {
        panic!("document kind must not change");
    };
    assert_eq!(map.base_url.as_str(), "https://example.com");
    let urls: Vec<&str> = map.results.iter().map(|item| item.url.as_str()).collect();
    assert_eq!(urls, vec!["https://example.com/direct", "https://example.com/a", "https://example.com/direct"]);
    assert!(response.grounding_redirects().is_empty());
}

fn search(results: Vec<WebSource>, audit: EvidenceAudit) -> ResponseDocument {
    ResponseDocument::Search(SearchResponse { evidence_audit: audit, results })
}

#[test]
fn search_documents_need_unique_direct_urls_covered_by_the_audit() {
    let valid = search(
        vec![source(Some("1999-06-01"), None)],
        audit("1999-06-01", "June 1, 1999", "Published June 1, 1999"),
    );
    assert_eq!(valid.validate(), Ok(()));

    let duplicated = search(
        vec![source(None, None), source(None, None)],
        audit("1999-06-01", "June 1, 1999", "Published June 1, 1999"),
    );
    assert_eq!(duplicated.validate(), Err(AgyError::OutputInvalid));

    let mut uncovered = source(None, None);
    uncovered.url = http_url("https://example.com/elsewhere");
    let unaudited = search(
        vec![uncovered],
        audit("1999-06-01", "June 1, 1999", "Published June 1, 1999"),
    );
    assert_eq!(unaudited.validate(), Err(AgyError::OutputInvalid));
}

#[test]
fn research_citations_must_name_listed_sources() {
    let research = |citation: &str| {
        ResponseDocument::Research(ResearchResponse {
            evidence_audit: audit("1999-06-01", "June 1, 1999", "Published June 1, 1999"),
            title: "Research".to_owned(),
            summary: "Evidence".to_owned(),
            findings: vec![ResearchFinding {
                title: "Finding".to_owned(),
                summary: "Evidence".to_owned(),
                citations: vec![http_url(citation)],
            }],
            sources: vec![source(None, None)],
        })
    };
    assert_eq!(research("https://www.rfc-editor.org/rfc/rfc2549").validate(), Ok(()));
    assert_eq!(
        research("https://example.com/unlisted").validate(),
        Err(AgyError::OutputInvalid)
    );
}

#[test]
fn collections_are_bounded_and_unique() {
    assert_eq!(bounded(0, 20), Err(AgyError::OutputInvalid));
    assert_eq!(bounded(1, 20), Ok(()));
    assert_eq!(bounded(20, 20), Ok(()));
    assert_eq!(bounded(21, 20), Err(AgyError::OutputInvalid));
    let a = http_url("https://example.com/a");
    let b = http_url("https://example.com/b");
    assert_eq!(unique(&vec![&a, &b]), Ok(()));
    assert_eq!(unique(&vec![&a, &b, &a]), Err(AgyError::OutputInvalid));
}

#[test]
fn audits_need_direct_candidates_covering_public_urls() {
    let evidence = audit("1999-06-01", "June 1, 1999", "Published June 1, 1999");
    let listed = http_url("https://www.rfc-editor.org/rfc/rfc2549");
    let unlisted = http_url("https://example.com/other");
    assert_eq!(evidence_audit(&evidence, &vec![&listed]), Ok(()));
    assert_eq!(
        evidence_audit(&evidence, &vec![&listed, &unlisted]),
        Err(EvidenceAuditError::PublicUrlMissing)
    );
    let mut transported = audit("1999-06-01", "June 1, 1999", "Published June 1, 1999");
    transported.candidates[0].url =
        http_url("https://vertexaisearch.cloud.google.com/grounding-api-redirect/token");
    assert_eq!(evidence_audit(&transported, &vec![]), Err(EvidenceAuditError::CandidateInvalid));
}
