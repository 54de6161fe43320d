//! Case-insensitive classification of HTML element names.

use vstd::prelude::*;

use crate::text::{eq_ignore_ascii_case, lower_ascii, lower_ascii_exec};

verus! {

/// ASCII case-insensitive name equality.
pub fn same_name(left: &[char], right: &[char]) -> (r: bool)
    ensures
        r == eq_ignore_ascii_case(left@, right@),
{
    if left.len() != right.len() {
        return false;
    }
    let mut i: usize = 0;
    while i < left.len()
        invariant
            left@.len() == right@.len(),
            i <= left@.len(),
            forall|k: int| 0 <= k < i ==> lower_ascii(#[trigger] left@[k]) == lower_ascii(right@[k]),
        decreases left@.len() - i,
    {
        if lower_ascii_exec(left[i]) != lower_ascii_exec(right[i]) {
            return false;
        }
        i = i + 1;
    }
    true
}

fn same_name_str(left: &[char], right: &str) -> (r: bool)
    ensures
        r == eq_ignore_ascii_case(left@, right@),
{
    let right = crate::text::chars_of(right);
    same_name(left, right.as_slice())
}

/// Elements whose content is raw text up to the matching close tag.
pub open spec fn raw_text_name(name: Seq<char>) -> bool {
    eq_ignore_ascii_case(name, "script"@) || eq_ignore_ascii_case(name, "style"@)
        || eq_ignore_ascii_case(name, "title"@) || eq_ignore_ascii_case(name, "textarea"@)
        || eq_ignore_ascii_case(name, "xmp"@) || eq_ignore_ascii_case(name, "iframe"@)
        || eq_ignore_ascii_case(name, "noembed"@) || eq_ignore_ascii_case(name, "noframes"@)
        || eq_ignore_ascii_case(name, "plaintext"@)
}

/// Elements whose content is never rendered.
pub open spec fn inert_name(name: Seq<char>) -> bool {
    eq_ignore_ascii_case(name, "template"@) || eq_ignore_ascii_case(name, "noscript"@)
}

/// Elements that never have content.
pub open spec fn void_name(name: Seq<char>) -> bool {
    eq_ignore_ascii_case(name, "area"@) || eq_ignore_ascii_case(name, "base"@)
        || eq_ignore_ascii_case(name, "br"@) || eq_ignore_ascii_case(name, "col"@)
        || eq_ignore_ascii_case(name, "embed"@) || eq_ignore_ascii_case(name, "hr"@)
        || eq_ignore_ascii_case(name, "img"@) || eq_ignore_ascii_case(name, "input"@)
        || eq_ignore_ascii_case(name, "link"@) || eq_ignore_ascii_case(name, "meta"@)
        || eq_ignore_ascii_case(name, "param"@) || eq_ignore_ascii_case(name, "source"@)
        || eq_ignore_ascii_case(name, "track"@) || eq_ignore_ascii_case(name, "wbr"@)
}

pub fn is_raw_text(name: &[char]) -> (r: bool)
    ensures
        r == raw_text_name(name@),
{
    same_name_str(name, "script") || same_name_str(name, "style") || same_name_str(name, "title")
        || same_name_str(name, "textarea") || same_name_str(name, "xmp") || same_name_str(
        name,
        "iframe",
    ) || same_name_str(name, "noembed") || same_name_str(name, "noframes") || same_name_str(
        name,
        "plaintext",
    )
}

pub fn is_inert(name: &[char]) -> (r: bool)
    ensures
        r == inert_name(name@),
{
    same_name_str(name, "template") || same_name_str(name, "noscript")
}

pub fn is_void(name: &[char]) -> (r: bool)
    ensures
        r == void_name(name@),
{
    same_name_str(name, "area") || same_name_str(name, "base") || same_name_str(name, "br")
        || same_name_str(name, "col") || same_name_str(name, "embed") || same_name_str(name, "hr")
        || same_name_str(name, "img") || same_name_str(name, "input") || same_name_str(name, "link")
        || same_name_str(name, "meta") || same_name_str(name, "param") || same_name_str(
        name,
        "source",
    ) || same_name_str(name, "track") || same_name_str(name, "wbr")
}

} // verus!
