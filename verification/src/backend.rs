//! Model preference policy for content execution.

use vstd::prelude::*;

use crate::error::AgyError;
use crate::response_models::str_views;
use crate::text::{
    chars_of, fields, fields_of, same_text, string_from_chars, string_from_utf8, trim, trim_chars,
    views,
};
use crate::types::{Effort, Operation, PreferredSearchModel, VerificationMode};

verus! {

/// Only an ordinary low-effort Search asks for the fixed preferred model.
pub open spec fn spec_preferred_search_model(
    operation: Operation,
    verification: VerificationMode,
    effort: Option<Effort>,
) -> Option<PreferredSearchModel> {
    if operation == Operation::Search && verification == VerificationMode::Standard && effort
        == Some(Effort::Low) {
        Some(PreferredSearchModel::Gemini36FlashLow)
    } else {
        None
    }
}

/// The model to prefer when the caller pinned none.
pub fn preferred_search_model(
    operation: Operation,
    verification: VerificationMode,
    effort: Option<Effort>,
) -> (r: Option<PreferredSearchModel>)
    ensures
        r == spec_preferred_search_model(operation, verification, effort),
{
    match operation {
        Operation::Search => match verification {
            VerificationMode::Standard => match effort {
                Some(Effort::Low) => Some(PreferredSearchModel::Gemini36FlashLow),
                Some(Effort::Medium) | Some(Effort::High) | None => None,
            },
            VerificationMode::TemporalComparison => None,
        },
        Operation::Extract | Operation::SiteMap | Operation::Crawl | Operation::Research => None,
    }
}

/// The lines that hold something once trimmed of Unicode whitespace, trimmed, in order.
pub open spec fn nonblank_lines(lines: Seq<Seq<char>>) -> Seq<Seq<char>>
    decreases lines.len(),
{
    if lines.len() == 0 {
        Seq::empty()
    } else {
        let rest = nonblank_lines(lines.drop_last());
        let line = trim(lines.last());
        if line.len() == 0 {
            rest
        } else {
            rest.push(line)
        }
    }
}

/// The model slugs of a catalog listing: one per non-blank line, trimmed.
pub open spec fn catalog_slugs(text: Seq<char>) -> Seq<Seq<char>> {
    nonblank_lines(fields(text, '\n'))
}

/// What reading a catalog listing gives: its slugs, or `OutputInvalid` where the bytes are not
/// UTF-8 or name no model.
pub open spec fn catalog_outcome(output: Seq<u8>) -> Result<Seq<Seq<char>>, AgyError> {
    if !vstd::utf8::valid_utf8(output) {
        Err(AgyError::OutputInvalid)
    } else {
        let slugs = catalog_slugs(vstd::utf8::decode_utf8(output));
        if slugs.len() == 0 {
            Err(AgyError::OutputInvalid)
        } else {
            Ok(slugs)
        }
    }
}

/// Read the model catalog that the CLI lists, one slug per line.
pub fn parse_model_catalog(output: &[u8]) -> (r: Result<Vec<String>, AgyError>)
    ensures
        match r {
            Ok(models) => catalog_outcome(output@) == Ok::<Seq<Seq<char>>, AgyError>(str_views(models@)),
            Err(e) => catalog_outcome(output@) == Err::<Seq<Seq<char>>, AgyError>(e),
        },
{
    let text = match string_from_utf8(output) {
        Some(text) => text,
        None => return Err(AgyError::OutputInvalid),
    };
    let chars = chars_of(text.as_str());
    let lines = fields_of(&chars, '\n');
    let ghost lv = views(lines@);
    let mut models: Vec<String> = Vec::new();
    let mut i: usize = 0;
    while i < lines.len()
        invariant
            lv == views(lines@),
            lv == fields(chars@, '\n'),
            i <= lines@.len(),
            str_views(models@) == nonblank_lines(lv.take(i as int)),
        decreases lines@.len() - i,
    {
        let line = trim_chars(&lines[i]);
        proof {
            assert(lv.take(i + 1).drop_last() =~= lv.take(i as int));
            assert(lv.take(i + 1).last() == lines@[i as int]@);
        }
        if line.len() > 0 {
            let slug = string_from_chars(line.as_slice());
            let ghost before = str_views(models@);
            models.push(slug);
            proof {
                assert(str_views(models@) =~= before.push(line@));
            }
        }
        i = i + 1;
    }
    proof {
        assert(lv.take(i as int) =~= lv);
    }
    if models.len() == 0 {
        return Err(AgyError::OutputInvalid);
    }
    Ok(models)
}

/// Whether the catalog lists `slug`.
pub fn catalog_lists(models: &Vec<String>, slug: &str) -> (r: bool)
    ensures
        r == str_views(models@).contains(slug@),
{
    let ghost mv = str_views(models@);
    let mut i: usize = 0;
    while i < models.len()
        invariant
            mv == str_views(models@),
            i <= models@.len(),
            forall|k: int| 0 <= k < i ==> mv[k] != slug@,
        decreases models@.len() - i,
    {
        if same_text(models[i].as_str(), slug) {
            proof {
                assert(mv[i as int] == slug@);
            }
            return true;
        }
        i = i + 1;
    }
    false
}

/// A pinned model is used only where the catalog lists it; otherwise `UnknownModel`.
pub fn check_selected_model(models: &Vec<String>, selected: &str) -> (r: Result<(), AgyError>)
    ensures
        r == (if str_views(models@).contains(selected@) {
            Ok(())
        } else {
            Err(AgyError::UnknownModel)
        }),
{
    if catalog_lists(models, selected) {
        Ok(())
    } else {
        Err(AgyError::UnknownModel)
    }
}

/// The catalog slug of a preferred model.
pub fn preferred_slug(model: PreferredSearchModel) -> (r: &'static str)
    ensures
        r@ == preferred_slug_text(model),
{
    match model {
        PreferredSearchModel::Gemini36FlashLow => "gemini-3.6-flash-low",
    }
}

/// The slug text of each preferred model.
pub open spec fn preferred_slug_text(model: PreferredSearchModel) -> Seq<char> {
    match model {
        PreferredSearchModel::Gemini36FlashLow => "gemini-3.6-flash-low"@,
    }
}

/// The preferred model, where the catalog lists it.
pub fn catalog_preference(models: &Vec<String>, preferred: PreferredSearchModel) -> (r: Option<String>)
    ensures
        match r {
            Some(slug) => str_views(models@).contains(preferred_slug_text(preferred))
                && slug@ == preferred_slug_text(preferred),
            None => !str_views(models@).contains(preferred_slug_text(preferred)),
        },
{
    let slug = preferred_slug(preferred);
    if catalog_lists(models, slug) {
        Some(slug.to_owned())
    } else {
        None
    }
}

} // verus!
