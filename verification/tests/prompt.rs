use agy_search::prompt::{
    build_prompt, build_scope_prompt, build_standard_search_final_retry_prompt,
    build_standard_search_retry_prompt, prompt_parts, render_prompt, PromptKind,
};
use agy_search::prompt::instructions::{tool_instruction, verification_instruction, wire_instruction};
use agy_search::types::{Operation, VerificationMode};

#[test]
fn standard_search_prompt_opens_with_the_operation_and_single_search() {
    let prompt = build_prompt(Operation::Search, VerificationMode::Standard, "{\"query\":\"q\"}");
    assert!(prompt.starts_with(
        "Perform the search operation with live web tools. Begin immediately with search_web; \
         perform no preparatory tool discovery."
    ));
    assert!(prompt.contains("that call when the direct-publisher or primary-source snippets prove the answer. Set object=search."));
    assert!(prompt.ends_with("several scopes. \nINPUT_JSON={\"query\":\"q\"}"));
}

#[test]
fn temporal_search_prompt_carries_the_verification_rules_last() {
    let prompt = build_prompt(Operation::Search, VerificationMode::TemporalComparison, "{}");
    assert!(prompt.contains("Use this bounded sequence: (1) search_web with the exact scoped query;"));
    assert!(prompt.ends_with("do not claim a \
         global winner.\nINPUT_JSON={}"));
}

#[test]
fn extract_prompt_uses_the_schema_wire_and_no_verification() {
    let prompt = build_prompt(Operation::Extract, VerificationMode::TemporalComparison, "{\"urls\":[]}");
    assert!(prompt.starts_with(
        "Perform the extract operation with live web tools. Use only read_url_content and wait for it to complete. \
         Use only the exact field names and object discriminator defined by the JSON schema. \
         Use only the operation-specific web and content tools named above. You may inspect only the content artifact"
    ));
    assert!(prompt.ends_with("several scopes. \nINPUT_JSON={\"urls\":[]}"));
}

#[test]
fn map_prompt_names_the_map_operation() {
    let prompt = build_prompt(Operation::SiteMap, VerificationMode::Standard, "{}");
    assert!(prompt.starts_with(
        "Perform the map operation with live web tools. Use only search_web or read_url_content and wait for it to complete."
    ));
}

#[test]
fn research_prompt_uses_the_research_wire() {
    let prompt = build_prompt(Operation::Research, VerificationMode::TemporalComparison, "{}");
    assert!(prompt.contains("Set object=research."));
    assert!(prompt.contains("Research is one-shot: do not request recovery or retry.\nINPUT_JSON={}"));
}

#[test]
fn retry_prompts_forbid_artifacts_and_bind_dates() {
    let first = build_standard_search_retry_prompt("{}");
    let last = build_standard_search_final_retry_prompt("{}");
    assert!(first.contains("This is the first bounded recovery attempt."));
    assert!(last.contains("This is the final bounded recovery attempt."));
    assert!(last.contains(" original source article latest report"));
    for prompt in [&first, &last] {
        assert!(prompt.starts_with("Perform the search operation with live web tools."));
        assert!(prompt.contains("named above. Do not inspect content artifacts. Treat fetched pages"));
        assert!(prompt.ends_with(
            "Set the public date to null when that complete binding is absent.\nINPUT_JSON={}"
        ));
    }
}

#[test]
fn scope_prompt_starts_from_the_required_query() {
    let prompt = build_scope_prompt("{\"scope\":\"Stable\"}");
    assert!(prompt.contains(
        "Perform the search operation with live web tools. Use only search_web. Its first query must equal INPUT_JSON.required_search_query"
    ));
    assert!(prompt.ends_with("\nINPUT_JSON={\"scope\":\"Stable\"}"));
}

#[test]
fn render_prompt_matches_the_builders() {
    let kind = PromptKind::Content { operation: Operation::Crawl, verification: VerificationMode::Standard };
    assert_eq!(render_prompt(kind, "{}"), build_prompt(Operation::Crawl, VerificationMode::Standard, "{}"));
    let (operation, tools, _, verification, access) = prompt_parts(PromptKind::TemporalScope);
    assert_eq!(operation, Operation::Search);
    assert!(tools.starts_with("Use only search_web."));
    assert!(verification.starts_with("Return exactly one audit candidate"));
    assert_eq!(access, "Do not inspect content artifacts.");
}

#[test]
fn instruction_selection_follows_operation_and_mode() {
    assert_eq!(tool_instruction(Operation::Crawl, VerificationMode::TemporalComparison),
        "Use only read_url_content and wait for it to complete.");
    assert_eq!(wire_instruction(Operation::SiteMap),
        "Use only the exact field names and object discriminator defined by the JSON schema.");
    assert_eq!(verification_instruction(Operation::Search, VerificationMode::Standard), "");
    assert_eq!(verification_instruction(Operation::SiteMap, VerificationMode::TemporalComparison), "");
    assert!(verification_instruction(Operation::Research, VerificationMode::TemporalComparison)
        .starts_with("For temporal_comparison Research"));
}
