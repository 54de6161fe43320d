//! Operation-specific instruction texts and their selection.

use vstd::prelude::*;
use crate::types::{Operation, VerificationMode};

verus! {

/// Tools for a standard Search.
pub const SEARCH_STANDARD_TOOLS: &'static str = "Begin immediately with search_web; perform no preparatory tool discovery. Use exactly \
             one search_web call and do not use any other tool. Start its query with \
             INPUT_JSON.query byte-for-byte. For an unrestricted search, append a short \
             query-language phrase meaning original evidence article (for Korean use exactly \
             ` 원문 기사`; for English use exactly ` original source article`), followed by \
             ` -site:google.com -site:google.co.kr -site:v.daum.net -site:n.news.naver.com \
             -site:news.nate.com`. A restricted search must keep its caller-owned site expression \
             instead. For unrestricted input, set every URL field to an exact \
             vertexaisearch.cloud.google.com/grounding-api-redirect URL copied from the completed \
             tool result, never to a publisher URL; the wrapper resolves it. Reject placeholders, \
             publisher slugs, and any token that was not copied verbatim. When max_results is \
             at least two, return at least two distinct result items and audit candidates copied \
             from different completed search results. Use distinct grounding transports so one \
             dead publisher redirect can be discarded without another model call. Return after \
             that call when the direct-publisher or primary-source snippets prove the answer.";

/// Tools for a temporal-comparison Search.
pub const SEARCH_TEMPORAL_TOOLS: &'static str = "Use this bounded sequence: (1) search_web with the exact scoped query; (2) when \
             source_restriction.urls contains an exact source, read the relevant literal member and \
             never its search-result grounding transport. Otherwise confirm the selected canonical \
             page covers the whole requested comparison scope. A winner-specific \
             release file, README, download page, or single-product changelog is not the comparison \
             page. If call 1 lacks a scope-wide page, use one focused search for the named official \
             changelog plus `all product tracks tabs`; (3) read_url_content exactly once on that \
             scope-wide comparison page. From the fetched page enumerate \
             every named tab, track, category, and dated candidate in scope. When the artifact is \
             raw HTML, inspect only that artifact once. Scope names must be the exact visible tab or \
             button labels, never invented aliases. When buttons use data-tab=KEY and content uses \
             data-list-panel=KEY, pair each label only with the first release row in its matching \
             panel; take that row's version-link and adjacent explicit date text, never a later row \
             or a value from another panel. Do not repeatedly view or grep it. Preserve every exact \
             tab label as an unresolved scope until its own value and date are grounded. Do not \
             spend a follow-up on a scope already grounded by the canonical page. For each remaining \
             scope, search separately with `\"EXACT_SCOPE\" latest version release date \
             site:OFFICIAL_HOST`. If that call finds a value but omits its date or uses a non-official \
             source, make one final exact-value call: `\"EXACT_SCOPE\" \"EXACT_VALUE\" release date \
             site:OFFICIAL_HOST`. Never combine scopes, borrow a value from another panel, or \
             repeat/prepend call 1. Stop as soon as every scope is verified and never exceed eight \
             attempted research-tool calls total. Do not read a redirect and then read its direct \
             target again; one completed read is enough. Wait for every call to finish.";

/// Tools for a standard Research run.
pub const RESEARCH_STANDARD_TOOLS: &'static str = "When INPUT_JSON.source_restriction.urls supplies the complete exact evidence set, \
             read each literal member directly and do not search for it. Otherwise use search_web \
             for the independent sources needed by the synthesis. Honor exactly \
             INPUT_JSON.tool_call_budget as the maximum number of attempted research-tool calls. \
             Do not prepend a separate discovery phase.";

/// Tools for a temporal-comparison Research run.
pub const RESEARCH_TEMPORAL_TOOLS: &'static str = "When INPUT_JSON.source_restriction.urls supplies the complete exact evidence set, \
             read each literal member directly and do not search for it. Otherwise use search_web \
             to inventory every compared scope, then verify canonical evidence pages with \
             read_url_content. Honor exactly INPUT_JSON.tool_call_budget as the maximum number of \
             attempted research-tool calls and wait for each.";

/// Tools for Extract and Crawl.
pub const READ_ONLY_TOOLS: &'static str = "Use only read_url_content and wait for it to complete.";

/// Tools for a site map.
pub const SITE_MAP_TOOLS: &'static str = "Use only search_web or read_url_content and wait for it to complete.";

/// The wire format of a Search answer.
pub const SEARCH_WIRE: &'static str = "Set object=search. Results keys are only title,url,snippet,date,last_updated. \
             evidence_audit keys are only candidates,coverage_complete,conclusion; candidate keys \
             are only scope,claim,url,date,value,source_date_text,evidence_excerpt. Put versions and track names in \
             title, snippet, claim, or value. Before emitting results, require every results[i].url \
             to equal at least one evidence_audit.candidates[j].url. For every non-null \
             results[i].date, one same-URL candidate must repeat that normalized date, carry the \
             exact source_date_text, and include that text in its contiguous evidence_excerpt; \
             otherwise set results[i].date to null. \
             Never emit aliases such as search_result, source_url, canonical_url, \
             explicit_source_date, version_date, or scopes_checked.";

/// The wire format of a Research answer.
pub const RESEARCH_WIRE: &'static str = "Set object=research. Source keys are only title,url,snippet,date,last_updated; finding \
             keys are only title,summary,citations. evidence_audit keys are only candidates, \
             coverage_complete,conclusion; candidate keys are only scope,claim,url,date,value, \
             source_date_text,evidence_excerpt. Never emit \
             source_url, canonical_url, explicit_source_date, version_date, or scopes_checked.";

/// The wire format of the other answers.
pub const SCHEMA_WIRE: &'static str = "Use only the exact field names and object discriminator defined by the JSON schema.";

/// Verification for a temporal-comparison Search.
pub const SEARCH_TEMPORAL_VERIFICATION: &'static str = "For temporal_comparison, audit every exact caller-named scope. Every candidate \
             needs value set to the exact compared version or value, date normalized to YYYY-MM-DD, \
             source_date_text copied with the source's exact date spelling, and evidence_excerpt set \
             to a short, contiguous source excerpt containing both value and source_date_text. Copy \
             the normalized candidate date into exactly one public result date. For one scope, \
             mechanically verify its exact temporal tuple. For multiple scopes, compare all source \
             dates subject to the requested cutoff and rank the unique newest verified candidate first. Set \
             coverage_complete=true only after every named tab or scope was checked. If any scope, \
             exact version, or date remains missing, set coverage_complete=false and do not claim a \
             global winner.";

/// Verification for a temporal-comparison Research run.
pub const RESEARCH_TEMPORAL_VERIFICATION: &'static str = "For temporal_comparison Research, audit every exact caller-named scope. Every \
             candidate needs its exact compared value, normalized YYYY-MM-DD date, exact \
             source_date_text, and a contiguous evidence_excerpt containing both. Each candidate's \
             value and source_date_text must appear together in the title or snippet of a public \
             source with the same URL. Every public source date must be an audit-backed YYYY-MM-DD \
             candidate date for that URL. For one scope, mechanically verify its exact temporal tuple. \
             For multiple scopes, the unique latest candidate must be visible in a public source with \
             the same URL, date, and value. One canonical source may prove multiple \
             differently dated candidates. Set coverage_complete=true only after every scope is \
             fully bound. Research is one-shot: do not request recovery or retry.";


/// The tool-use instruction for an operation under a verification mode.
pub open spec fn tool_text(operation: Operation, verification: VerificationMode) -> Seq<char> {
    match operation {
        Operation::Search => match verification {
            VerificationMode::Standard => SEARCH_STANDARD_TOOLS@,
            VerificationMode::TemporalComparison => SEARCH_TEMPORAL_TOOLS@,
        },
        Operation::Research => match verification {
            VerificationMode::Standard => RESEARCH_STANDARD_TOOLS@,
            VerificationMode::TemporalComparison => RESEARCH_TEMPORAL_TOOLS@,
        },
        Operation::Extract | Operation::Crawl => READ_ONLY_TOOLS@,
        Operation::SiteMap => SITE_MAP_TOOLS@,
    }
}

/// The answer-format instruction for an operation.
pub open spec fn wire_text(operation: Operation) -> Seq<char> {
    match operation {
        Operation::Search => SEARCH_WIRE@,
        Operation::Research => RESEARCH_WIRE@,
        _ => SCHEMA_WIRE@,
    }
}

/// The extra verification instruction: only temporal comparisons of Search and
/// Research carry one.
pub open spec fn verification_text(operation: Operation, verification: VerificationMode) -> Seq<char> {
    match verification {
        VerificationMode::Standard => Seq::empty(),
        VerificationMode::TemporalComparison => match operation {
            Operation::Search => SEARCH_TEMPORAL_VERIFICATION@,
            Operation::Research => RESEARCH_TEMPORAL_VERIFICATION@,
            _ => Seq::empty(),
        },
    }
}

/// Selects the tool-use instruction.
pub fn tool_instruction(operation: Operation, verification: VerificationMode) -> (text: &'static str)
    ensures
        text@ == tool_text(operation, verification),
{
    match operation {
        Operation::Search => match verification {
            VerificationMode::Standard => SEARCH_STANDARD_TOOLS,
            VerificationMode::TemporalComparison => SEARCH_TEMPORAL_TOOLS,
        },
        Operation::Research => match verification {
            VerificationMode::Standard => RESEARCH_STANDARD_TOOLS,
            VerificationMode::TemporalComparison => RESEARCH_TEMPORAL_TOOLS,
        },
        Operation::Extract | Operation::Crawl => READ_ONLY_TOOLS,
        Operation::SiteMap => SITE_MAP_TOOLS,
    }
}

/// Selects the answer-format instruction.
pub fn wire_instruction(operation: Operation) -> (text: &'static str)
    ensures
        text@ == wire_text(operation),
{
    match operation {
        Operation::Search => SEARCH_WIRE,
        Operation::Research => RESEARCH_WIRE,
        Operation::Extract | Operation::SiteMap | Operation::Crawl => SCHEMA_WIRE,
    }
}

/// Selects the extra verification instruction, empty where there is none.
pub fn verification_instruction(operation: Operation, verification: VerificationMode) -> (text: &'static str)
    ensures
        text@ == verification_text(operation, verification),
{
    match verification {
        VerificationMode::Standard => {
            proof { reveal_strlit(""); }
            ""
        },
        VerificationMode::TemporalComparison => match operation {
            Operation::Search => SEARCH_TEMPORAL_VERIFICATION,
            Operation::Research => RESEARCH_TEMPORAL_VERIFICATION,
            Operation::Extract | Operation::SiteMap | Operation::Crawl => {
                proof { reveal_strlit(""); }
                ""
            },
        },
    }
}

} // verus!
