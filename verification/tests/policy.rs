use agy_search::backend::{
    catalog_preference, check_selected_model, parse_model_catalog, preferred_search_model, preferred_slug,
};
use agy_search::error::AgyError;
use agy_search::invocation::validate_model_effort;
use agy_search::redirect::response::HttpStatus;
use agy_search::redirect::transport::{map_network_error, map_transport_error, SourceNetworkError};
use agy_search::types::{Effort, Operation, PreferredSearchModel, VerificationMode};

#[test]
fn prefers_only_unpinned_low_effort_standard_search() {
    let ineligible = [
        (Operation::Search, VerificationMode::TemporalComparison, Some(Effort::Low)),
        (Operation::Search, VerificationMode::Standard, Some(Effort::Medium)),
        (Operation::Search, VerificationMode::Standard, Some(Effort::High)),
        (Operation::Search, VerificationMode::Standard, None),
        (Operation::Research, VerificationMode::Standard, Some(Effort::Low)),
        (Operation::Extract, VerificationMode::Standard, Some(Effort::Low)),
        (Operation::SiteMap, VerificationMode::Standard, Some(Effort::Low)),
        (Operation::Crawl, VerificationMode::Standard, Some(Effort::Low)),
    ];

    let preferred = preferred_search_model(
        Operation::Search,
        VerificationMode::Standard,
        Some(Effort::Low),
    );

    assert_eq!(preferred, Some(PreferredSearchModel::Gemini36FlashLow));
    for (operation, verification, effort) in ineligible {
        assert_eq!(preferred_search_model(operation, verification, effort), None);
    }
}

#[test]
fn pinned_model_effort_must_agree_with_explicit_effort() {
    assert_eq!(validate_model_effort(None, Some(Effort::High)), Ok(()));
    assert_eq!(validate_model_effort(Some(Effort::Low), None), Ok(()));
    assert_eq!(validate_model_effort(Some(Effort::Low), Some(Effort::Low)), Ok(()));
    assert_eq!(
        validate_model_effort(Some(Effort::Low), Some(Effort::High)),
        Err(AgyError::InvalidCommand)
    );
}

#[test]
fn status_codes_fall_into_their_classes() {
    assert_eq!(HttpStatus::parse(0), HttpStatus::Other);
    assert_eq!(HttpStatus::parse(99), HttpStatus::Other);
    assert_eq!(HttpStatus::parse(100), HttpStatus::Informational);
    assert_eq!(HttpStatus::parse(199), HttpStatus::Informational);
    assert_eq!(HttpStatus::parse(200), HttpStatus::Success);
    assert_eq!(HttpStatus::parse(301), HttpStatus::Redirect);
    assert_eq!(HttpStatus::parse(399), HttpStatus::Redirect);
    assert_eq!(HttpStatus::parse(404), HttpStatus::Other);
    assert_eq!(HttpStatus::parse(u16::MAX), HttpStatus::Other);
}

#[test]
fn failures_keep_only_timeouts_and_unavailability() {
    assert_eq!(map_network_error(SourceNetworkError::Deadline), AgyError::Timeout);
    assert_eq!(map_network_error(SourceNetworkError::Dns), AgyError::OutputInvalid);
    assert_eq!(map_network_error(SourceNetworkError::InvalidUrl), AgyError::OutputInvalid);
    assert_eq!(map_network_error(SourceNetworkError::UnsafeAddress), AgyError::OutputInvalid);
    assert_eq!(map_transport_error(&AgyError::Timeout), AgyError::Timeout);
    assert_eq!(map_transport_error(&AgyError::Unavailable), AgyError::Unavailable);
    assert_eq!(map_transport_error(&AgyError::ProcessFailed), AgyError::OutputInvalid);
    assert_eq!(map_transport_error(&AgyError::UnknownModel), AgyError::OutputInvalid);
}

#[test]
fn model_catalogs_list_trimmed_nonblank_lines() {
    assert_eq!(
        parse_model_catalog(b"  gemini-3.6-flash-low \r\n\n\tother-model-pro\n"),
        Ok(vec!["gemini-3.6-flash-low".to_owned(), "other-model-pro".to_owned()])
    );
    assert_eq!(parse_model_catalog(b" \n\r\n"), Err(AgyError::OutputInvalid));
    assert_eq!(parse_model_catalog(b""), Err(AgyError::OutputInvalid));
    assert_eq!(parse_model_catalog(&[0xff, b'a']), Err(AgyError::OutputInvalid));
}

#[test]
fn pinned_and_preferred_models_need_a_catalog_entry() {
    let models = vec!["gemini-3.6-flash-low".to_owned(), "other-model-pro".to_owned()];
    assert_eq!(check_selected_model(&models, "other-model-pro"), Ok(()));
    assert_eq!(check_selected_model(&models, "other-model"), Err(AgyError::UnknownModel));
    assert_eq!(preferred_slug(PreferredSearchModel::Gemini36FlashLow), "gemini-3.6-flash-low");
    assert_eq!(
        catalog_preference(&models, PreferredSearchModel::Gemini36FlashLow),
        Some("gemini-3.6-flash-low".to_owned())
    );
    assert_eq!(catalog_preference(&models[1..].to_vec(), PreferredSearchModel::Gemini36FlashLow), None);
}
