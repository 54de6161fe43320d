//! One-tag-at-a-time HTML tokenizer over a character sequence.

use vstd::prelude::*;

pub mod raw_text;


use crate::text::{
    byte_len, eq_ignore_ascii_case, is_ascii_alnum, is_ascii_alpha, is_ascii_alpha_exec,
    is_ascii_alnum_exec, is_ascii_space, is_ascii_space_exec, is_space, is_space_exec, run_len,
    run_to, scan_to, scan_while_space, slice_chars, };

verus! {

/// The first occurrence of `c` at or after `from`.
pub open spec fn find_char(s: Seq<char>, c: char, from: int) -> Option<int> {
    if 0 <= from <= s.len() && run_to(s.skip(from), c) < s.len() - from {
        Some(from + run_to(s.skip(from), c))
    } else {
        None
    }
}

/// The first occurrence of the non-empty `pat` starting at or after `from`.
pub open spec fn find_seq(s: Seq<char>, pat: Seq<char>, from: int) -> Option<int>
    decreases s.len() - from,
{
    if from < 0 || from >= s.len() || from + pat.len() > s.len() {
        None
    } else if s.subrange(from, from + pat.len()) == pat {
        Some(from)
    } else {
        find_seq(s, pat, from + 1)
    }
}

/// The start of the next markup, the first `<` at or after `cursor`.
pub open spec fn spec_next_markup(html: Seq<char>, cursor: int) -> Option<int> {
    find_char(html, '<', cursor)
}

/// The index just after the `>` that ends the tag opened at `start`; quoted `>` do not count
/// and an unquoted `<` or the end of input make the tag invalid.
pub open spec fn tag_end_from(s: Seq<char>, i: int, quote: Option<char>) -> Option<int>
    decreases s.len() - i,
{
    if i < 0 || i >= s.len() {
        None
    } else {
        match quote {
            Some(q) => if s[i] == q {
                tag_end_from(s, i + 1, None)
            } else {
                tag_end_from(s, i + 1, quote)
            },
            None => if s[i] == '\'' || s[i] == '"' {
                tag_end_from(s, i + 1, Some(s[i]))
            } else if s[i] == '>' {
                Some(i + 1)
            } else if s[i] == '<' {
                None
            } else {
                tag_end_from(s, i + 1, None)
            },
        }
    }
}

pub open spec fn spec_tag_end(s: Seq<char>, start: int) -> Option<int> {
    tag_end_from(s, start + 1, None)
}

/// Characters that may continue an element name.
pub open spec fn name_char(c: char) -> bool {
    is_ascii_alnum(c) || c == '-' || c == '_' || c == ':'
}

/// Characters that may stand in an attribute name or unquoted value.
pub open spec fn attribute_char(c: char) -> bool {
    !is_ascii_space(c) && c != '/' && c != '=' && c != '\'' && c != '"' && c != '<' && c != '>'
}

/// The end of the element name that starts `value`: an ASCII letter, then name characters.
pub open spec fn spec_name_end(value: Seq<char>) -> Option<int> {
    if value.len() == 0 || !is_ascii_alpha(value[0]) {
        None
    } else {
        Some(1 + run_len(value.drop_first(), |c: char| name_char(c)) as int)
    }
}

/// Every character is Unicode whitespace.
pub open spec fn all_space(s: Seq<char>) -> bool {
    forall|i: int| 0 <= i < s.len() ==> is_space(#[trigger] s[i])
}

/// The name of a closing tag's content (after `/`), which may only be followed by whitespace.
pub open spec fn spec_closing_name(content: Seq<char>) -> Option<Seq<char>> {
    match spec_name_end(content) {
        None => None,
        Some(e) => if all_space(content.skip(e)) {
            Some(content.take(e))
        } else {
            None
        },
    }
}

/// The index after the ASCII whitespace that starts at `cursor`.
pub open spec fn skip_spaces(s: Seq<char>, cursor: int) -> int {
    cursor + run_len(s.skip(cursor), |c: char| is_ascii_space(c))
}

/// A quoted or unquoted attribute value at `cursor`, and the index after it.
pub open spec fn spec_attribute_value(content: Seq<char>, cursor: int) -> Option<(Seq<char>, int)> {
    if cursor < 0 || cursor >= content.len() {
        None
    } else {
        let first = content[cursor];
        if first == '\'' || first == '"' {
            let start = cursor + 1;
            let end = start + run_to(content.skip(start), first);
            if end >= content.len() {
                None
            } else {
                Some((content.subrange(start, end), end + 1))
            }
        } else {
            let end = cursor + run_len(content.skip(cursor), |c: char| attribute_char(c));
            Some((content.subrange(cursor, end), end))
        }
    }
}

/// Whether the wanted attribute was seen on a tag, and with which value.
pub enum AttrView {
    Missing,
    Present(Option<Seq<char>>),
}

pub proof fn lemma_skip_spaces(s: Seq<char>, cursor: int)
    requires
        0 <= cursor <= s.len(),
    ensures
        cursor <= skip_spaces(s, cursor) <= s.len(),
{
    crate::text::lemma_run_len_bound(s.skip(cursor), |c: char| is_ascii_space(c));
}

pub proof fn lemma_attribute_value(content: Seq<char>, cursor: int)
    ensures
        spec_attribute_value(content, cursor) matches Some((v, next)) ==> cursor <= next
            <= content.len(),
{
    if 0 <= cursor < content.len() {
        let first = content[cursor];
        if first == '\'' || first == '"' {
            crate::text::lemma_run_to_bound(content.skip(cursor + 1), first);
        } else {
            crate::text::lemma_run_len_bound(content.skip(cursor), |c: char| attribute_char(c));
        }
    }
}

/// The attributes of a tag after its name: at most one occurrence of `wanted`, never with an
/// empty value; the result is what was seen of `wanted` and whether the tag is self-closing.
pub open spec fn attributes_from(content: Seq<char>, wanted: Seq<char>, cursor: int, seen: AttrView) -> Option<(AttrView, bool)>
    decreases content.len() - cursor,
{
    if cursor < 0 || cursor > content.len() {
        None
    } else {
        let c1 = skip_spaces(content, cursor);
        proof {
            lemma_skip_spaces(content, cursor);
        }
        if c1 == content.len() {
            Some((seen, false))
        } else if content[c1] == '/' {
            proof {
                lemma_skip_spaces(content, c1 + 1);
            }
            if skip_spaces(content, c1 + 1) == content.len() {
                Some((seen, true))
            } else {
                None
            }
        } else {
            let a_end = c1 + run_len(content.skip(c1), |c: char| attribute_char(c));
            proof {
                crate::text::lemma_run_len_bound(content.skip(c1), |c: char| attribute_char(c));
            }
            if a_end == c1 {
                None
            } else {
                let attribute = content.subrange(c1, a_end);
                let c3 = skip_spaces(content, a_end);
                proof {
                    lemma_skip_spaces(content, a_end);
                }
                let parsed: Option<(Option<Seq<char>>, int)> = if c3 < content.len() && content[c3]
                    == '=' {
                    let c5 = skip_spaces(content, c3 + 1);
                    proof {
                        lemma_skip_spaces(content, c3 + 1);
                        lemma_attribute_value(content, c5);
                    }
                    match spec_attribute_value(content, c5) {
                        None => None,
                        Some((v, next)) => Some((Some(v), next)),
                    }
                } else {
                    Some((None, c3))
                };
                match parsed {
                    None => None,
                    Some((value, next)) => {
                        if attribute == wanted && ((value matches Some(v) && v.len() == 0)
                            || seen is Present) {
                            None
                        } else {
                            let seen2 = if attribute == wanted {
                                AttrView::Present(value)
                            } else {
                                seen
                            };
                            attributes_from(content, wanted, next, seen2)
                        }
                    },
                }
            }
        }
    }
}

/// An opening tag's name, what it carries of `wanted`, and whether it is self-closing.
pub open spec fn spec_opening_parts(content: Seq<char>, wanted: Seq<char>) -> Option<(Seq<char>, AttrView, bool)> {
    match spec_name_end(content) {
        None => None,
        Some(e) => match attributes_from(content, wanted, e, AttrView::Missing) {
            None => None,
            Some((seen, self_closing)) => Some((content.take(e), seen, self_closing)),
        },
    }
}

/// One markup token.
pub enum TokenView {
    Ignored { end: int },
    Opening { name: Seq<char>, value: AttrView, self_closing: bool, end: int },
    Closing { name: Seq<char>, start: int, end: int },
}

impl TokenView {
    pub open spec fn end(self) -> int {
        match self {
            TokenView::Ignored { end } => end,
            TokenView::Opening { end, .. } => end,
            TokenView::Closing { end, .. } => end,
        }
    }
}

/// The token that starts with the `<` at `start`: a comment, a declaration or processing
/// instruction, a closing tag, or an opening tag with what it carries of `wanted`.
pub open spec fn spec_parse_token(html: Seq<char>, start: int, wanted: Seq<char>) -> Option<TokenView> {
    if start < 0 || start >= html.len() || html[start] != '<' {
        None
    } else if start + 4 <= html.len() && html.subrange(start, start + 4) == seq!['<', '!', '-', '-'] {
        match find_seq(html, seq!['-', '-', '>'], start) {
            None => None,
            Some(p) => Some(TokenView::Ignored { end: p + 3 }),
        }
    } else {
        match spec_tag_end(html, start) {
            None => None,
            Some(end) => {
                let content = html.subrange(start + 1, end - 1);
                if content.len() > 0 && (content[0] == '!' || content[0] == '?') {
                    Some(TokenView::Ignored { end })
                } else if content.len() > 0 && content[0] == '/' {
                    match spec_closing_name(content.drop_first()) {
                        None => None,
                        Some(name) => Some(TokenView::Closing { name, start, end }),
                    }
                } else {
                    match spec_opening_parts(content, wanted) {
                        None => None,
                        Some((name, value, self_closing)) => Some(
                            TokenView::Opening { name, value, self_closing, end },
                        ),
                    }
                }
            }
        }
    }
}

/// The character index at which `n` bytes after `from` end, when that falls on a character.
pub open spec fn byte_span_end(s: Seq<char>, from: int, n: nat) -> Option<int> {
    if exists|e: int| from <= e <= s.len() && byte_len(s.subrange(from, e)) == n {
        Some(choose|e: int| from <= e <= s.len() && byte_len(s.subrange(from, e)) == n)
    } else {
        None
    }
}

/// The end of a raw-text element's content: the first `</name` followed by whitespace or `>`
/// whose tag is the matching closing tag; a mismatching tag there, or none, is an error.
/// Element names are ASCII, so `name.len()` is also its UTF-8 byte length.
pub open spec fn raw_text_end_from(html: Seq<char>, cursor: int, name: Seq<char>) -> Option<int>
    decreases html.len() - cursor,
{
    match find_seq(html, seq!['<', '/'], cursor) {
        None => None,
        Some(close_at) => {
            let ns = close_at + 2;
            match byte_span_end(html, ns, name.len()) {
                None => None,
                Some(e) => {
                    let boundary = e < html.len() && (is_ascii_space(html[e]) || html[e] == '>');
                    if eq_ignore_ascii_case(html.subrange(ns, e), name) && boundary {
                        match spec_parse_token(html, close_at, Seq::empty()) {
                            Some(TokenView::Closing { name: closing, end, .. }) => if eq_ignore_ascii_case(
                                name,
                                closing,
                            ) {
                                Some(end)
                            } else {
                                None
                            },
                            _ => None,
                        }
                    } else {
                        proof {
                            lemma_find_seq_bounds(html, seq!['<', '/'], cursor);
                        }
                        raw_text_end_from(html, ns, name)
                    }
                },
            }
        },
    }
}

pub proof fn lemma_find_seq_bounds(s: Seq<char>, pat: Seq<char>, from: int)
    ensures
        find_seq(s, pat, from) matches Some(p) ==> from <= p && p + pat.len() <= s.len()
            && s.subrange(p, p + pat.len()) == pat,
    decreases s.len() - from,
{
    if !(from < 0 || from >= s.len() || from + pat.len() > s.len()) && s.subrange(from, from + pat.len()) != pat {
        lemma_find_seq_bounds(s, pat, from + 1);
    }
}

} // verus!

verus! {

/// The markup was not well-formed enough to extract evidence from.
#[derive(Clone, Copy, Debug, PartialEq, Eq, Structural)]
pub struct HtmlStructureError;

/// What a tag carries of the wanted attribute.
#[derive(Debug)]
pub enum AttributeState {
    Missing,
    Present(Option<Vec<char>>),
}

impl View for AttributeState {
    type V = AttrView;

    open spec fn view(&self) -> AttrView {
        match self {
            AttributeState::Missing => AttrView::Missing,
            AttributeState::Present(None) => AttrView::Present(None),
            AttributeState::Present(Some(v)) => AttrView::Present(Some(v@)),
        }
    }
}

#[derive(Debug)]
pub struct OpeningToken {
    pub name: Vec<char>,
    pub value: AttributeState,
    pub self_closing: bool,
    pub end: usize,
}

#[derive(Debug)]
pub struct ClosingToken {
    pub name: Vec<char>,
    pub start: usize,
    pub end: usize,
}

#[derive(Debug)]
pub enum Token {
    Ignored { end: usize },
    Opening(OpeningToken),
    Closing(ClosingToken),
}

impl View for Token {
    type V = TokenView;

    open spec fn view(&self) -> TokenView {
        match self {
            Token::Ignored { end } => TokenView::Ignored { end: *end as int },
            Token::Opening(o) => TokenView::Opening {
                name: o.name@,
                value: o.value@,
                self_closing: o.self_closing,
                end: o.end as int,
            },
            Token::Closing(c) => TokenView::Closing {
                name: c.name@,
                start: c.start as int,
                end: c.end as int,
            },
        }
    }
}

impl Token {
    /// The index just after the token.
    pub fn end(&self) -> (e: usize)
        ensures
            e == self@.end(),
    {
        match self {
            Token::Ignored { end } => *end,
            Token::Opening(opening) => opening.end,
            Token::Closing(closing) => closing.end,
        }
    }
}

/// The first `<` at or after `cursor`.
pub fn next_markup(html: &Vec<char>, cursor: usize) -> (r: Option<usize>)
    ensures
        r matches Some(p) ==> spec_next_markup(html@, cursor as int) == Some(p as int),
        r is None ==> spec_next_markup(html@, cursor as int) is None,
{
    if cursor > html.len() {
        return None;
    }
    let p = scan_to(html, cursor, '<');
    if p == html.len() {
        None
    } else {
        Some(p)
    }
}

/// The first occurrence of `pat` at or after `from`.
pub fn find_seq_exec(s: &Vec<char>, pat: &[char], from: usize) -> (r: Option<usize>)
    requires
        pat@.len() > 0,
    ensures
        r matches Some(p) ==> find_seq(s@, pat@, from as int) == Some(p as int),
        r is None ==> find_seq(s@, pat@, from as int) is None,
{
    let n = s.len();
    let mut i = from;
    while i < n && pat.len() <= n - i
        invariant
            n == s@.len(),
            from <= i,
            pat@.len() > 0,
            find_seq(s@, pat@, from as int) == find_seq(s@, pat@, i as int),
        decreases s@.len() - i,
    {
        let mut k: usize = 0;
        let mut matched = true;
        while k < pat.len()
            invariant
                n == s@.len(),
                i + pat@.len() <= n,
                k <= pat@.len(),
                matched == forall|j: int| 0 <= j < k ==> s@[i + j] == pat@[j],
            decreases pat@.len() - k,
        {
            if s[i + k] != pat[k] {
                matched = false;
            }
            k = k + 1;
        }
        if matched {
            proof {
                assert(s@.subrange(i as int, i + pat@.len()) =~= pat@);
            }
            return Some(i);
        }
        proof {
            assert(s@.subrange(i as int, i + pat@.len()) != pat@) by {
                let j = choose|j: int| 0 <= j < pat@.len() && s@[i + j] != pat@[j];
                assert(s@.subrange(i as int, i + pat@.len())[j] == s@[i + j]);
            }
        }
        i = i + 1;
    }
    None
}

/// The index just after the `>` that ends the tag opened at `start`.
pub fn tag_end(html: &Vec<char>, start: usize) -> (r: Result<usize, HtmlStructureError>)
    ensures
        r matches Ok(e) ==> spec_tag_end(html@, start as int) == Some(e as int),
        r is Err ==> spec_tag_end(html@, start as int) is None,
{
    if start >= html.len() {
        return Err(HtmlStructureError);
    }
    let mut cursor = start + 1;
    let mut quote: Option<char> = None;
    while cursor < html.len()
        invariant
            start < cursor <= html@.len(),
            spec_tag_end(html@, start as int) == tag_end_from(html@, cursor as int, quote),
        decreases html@.len() - cursor,
    {
        let c = html[cursor];
        match quote {
            Some(q) => {
                if c == q {
                    quote = None;
                }
            },
            None => {
                if c == '\'' || c == '"' {
                    quote = Some(c);
                } else if c == '>' {
                    return Ok(cursor + 1);
                } else if c == '<' {
                    return Err(HtmlStructureError);
                }
            },
        }
        cursor = cursor + 1;
    }
    Err(HtmlStructureError)
}

pub fn is_name_byte(c: char) -> (r: bool)
    ensures
        r == name_char(c),
{
    is_ascii_alnum_exec(c) || c == '-' || c == '_' || c == ':'
}

pub fn is_attribute_byte(c: char) -> (r: bool)
    ensures
        r == attribute_char(c),
{
    !is_ascii_space_exec(c) && c != '/' && c != '=' && c != '\'' && c != '"' && c != '<' && c != '>'
}

/// The end of the element name that starts `value`.
pub fn name_end(value: &Vec<char>) -> (r: Result<usize, HtmlStructureError>)
    ensures
        r matches Ok(e) ==> spec_name_end(value@) == Some(e as int) && e <= value@.len(),
        r is Err ==> spec_name_end(value@) is None,
{
    if value.len() == 0 || !is_ascii_alpha_exec(value[0]) {
        return Err(HtmlStructureError);
    }
    let mut end: usize = 1;
    loop
        invariant
            1 <= end <= value@.len(),
            forall|k: int| 1 <= k < end ==> name_char(#[trigger] value@[k]),
        ensures
            1 <= end <= value@.len(),
            forall|k: int| 1 <= k < end ==> name_char(#[trigger] value@[k]),
            end == value@.len() || !name_char(value@[end as int]),
        decreases value@.len() - end,
    {
        if end == value.len() || !is_name_byte(value[end]) {
            break;
        }
        end = end + 1;
    }
    proof {
        let t = value@.drop_first();
        assert forall|k: int| 0 <= k < end - 1 implies name_char(#[trigger] t[k]) by {
            assert(t[k] == value@[k + 1]);
        }
        if end < value@.len() {
            assert(t[end - 1] == value@[end as int]);
        }
        crate::text::lemma_run_len_at(t, |c: char| name_char(c), end - 1);
    }
    Ok(end)
}

/// The name of a closing tag's content after its `/`.
pub fn closing_name(content: &Vec<char>) -> (r: Result<Vec<char>, HtmlStructureError>)
    ensures
        r matches Ok(n) ==> spec_closing_name(content@) == Some(n@),
        r is Err ==> spec_closing_name(content@) is None,
{
    let e = name_end(content)?;
    let mut i = e;
    while i < content.len()
        invariant
            e <= i <= content@.len(),
            spec_name_end(content@) == Some(e as int),
            forall|k: int| e <= k < i ==> is_space(#[trigger] content@[k]),
        decreases content@.len() - i,
    {
        if !is_space_exec(content[i]) {
            proof {
                assert(content@.skip(e as int)[i - e] == content@[i as int]);
                assert(!all_space(content@.skip(e as int)));
            }
            return Err(HtmlStructureError);
        }
        i = i + 1;
    }
    proof {
        assert forall|k: int| 0 <= k < content@.skip(e as int).len() implies is_space(
            #[trigger] content@.skip(e as int)[k],
        ) by {
            assert(content@.skip(e as int)[k] == content@[e + k]);
        }
    }
    let name = slice_chars(content, 0, e);
    proof {
        assert(name@ =~= content@.take(e as int));
    }
    Ok(name)
}

/// Move `cursor` past ASCII whitespace.
pub fn skip_space(s: &Vec<char>, cursor: &mut usize)
    requires
        *old(cursor) <= s@.len(),
    ensures
        *final(cursor) == skip_spaces(s@, *old(cursor) as int),
        *final(cursor) <= s@.len(),
{
    *cursor = scan_while_space(s, *cursor, true);
}

/// A quoted or unquoted attribute value at `cursor`; `cursor` moves past it.
pub fn attribute_value(content: &Vec<char>, cursor: &mut usize) -> (r: Result<Vec<char>, HtmlStructureError>)
    requires
        *old(cursor) <= content@.len(),
    ensures
        r matches Ok(v) ==> spec_attribute_value(content@, *old(cursor) as int) == Some((v@, *final(cursor) as int)),
        r is Err ==> spec_attribute_value(content@, *old(cursor) as int) is None,
        *final(cursor) <= content@.len(),
{
    let start0 = *cursor;
    if start0 >= content.len() {
        return Err(HtmlStructureError);
    }
    let first = content[start0];
    if first == '\'' || first == '"' {
        let start = start0 + 1;
        let end = scan_to(content, start, first);
        if end >= content.len() {
            return Err(HtmlStructureError);
        }
        *cursor = end + 1;
        let v = slice_chars(content, start, end);
        Ok(v)
    } else {
        let mut end = start0;
        loop
            invariant
                start0 <= end <= content@.len(),
                forall|k: int| start0 <= k < end ==> attribute_char(#[trigger] content@[k]),
            ensures
                start0 <= end <= content@.len(),
                forall|k: int| start0 <= k < end ==> attribute_char(#[trigger] content@[k]),
                end == content@.len() || !attribute_char(content@[end as int]),
            decreases content@.len() - end,
        {
            if end == content.len() || !is_attribute_byte(content[end]) {
                break;
            }
            end = end + 1;
        }
        proof {
            let t = content@.skip(start0 as int);
            assert forall|k: int| 0 <= k < end - start0 implies attribute_char(#[trigger] t[k]) by {
                assert(t[k] == content@[start0 + k]);
            }
            if end < content@.len() {
                assert(t[end - start0] == content@[end as int]);
            }
            crate::text::lemma_run_len_at(t, |c: char| attribute_char(c), end - start0);
        }
        *cursor = end;
        let v = slice_chars(content, start0, end);
        Ok(v)
    }
}

} // verus!

verus! {

/// An opening tag's name, what it carries of `wanted`, and whether it is self-closing.
pub fn opening_parts(content: &Vec<char>, wanted: &[char]) -> (r: Result<(Vec<char>, AttributeState, bool), HtmlStructureError>)
    ensures
        r matches Ok((name, value, self_closing)) ==> spec_opening_parts(content@, wanted@) == Some(
            (name@, value@, self_closing),
        ),
        r is Err ==> spec_opening_parts(content@, wanted@) is None,
{
    let e = name_end(content)?;
    let name = slice_chars(content, 0, e);
    proof {
        assert(name@ =~= content@.take(e as int));
    }
    let mut cursor = e;
    let mut seen = AttributeState::Missing;
    loop
        invariant
            cursor <= content@.len(),
            spec_name_end(content@) == Some(e as int),
            name@ == content@.take(e as int),
            attributes_from(content@, wanted@, e as int, AttrView::Missing) == attributes_from(
                content@,
                wanted@,
                cursor as int,
                seen@,
            ),
        decreases content@.len() - cursor,
    {
        let ghost before = cursor;
        skip_space(content, &mut cursor);
        proof {
            lemma_skip_spaces(content@, before as int);
        }
        if cursor == content.len() {
            return Ok((name, seen, false));
        }
        if content[cursor] == '/' {
            cursor = cursor + 1;
            skip_space(content, &mut cursor);
            if cursor == content.len() {
                return Ok((name, seen, true));
            }
            return Err(HtmlStructureError);
        }
        let attribute_start = cursor;
        loop
            invariant
                attribute_start <= cursor <= content@.len(),
                forall|k: int| attribute_start <= k < cursor ==> attribute_char(#[trigger] content@[k]),
            ensures
                attribute_start <= cursor <= content@.len(),
                forall|k: int| attribute_start <= k < cursor ==> attribute_char(#[trigger] content@[k]),
                cursor == content@.len() || !attribute_char(content@[cursor as int]),
            decreases content@.len() - cursor,
        {
            if cursor == content.len() || !is_attribute_byte(content[cursor]) {
                break;
            }
            cursor = cursor + 1;
        }
        proof {
            let t = content@.skip(attribute_start as int);
            assert forall|k: int| 0 <= k < cursor - attribute_start implies attribute_char(
                #[trigger] t[k],
            ) by {
                assert(t[k] == content@[attribute_start + k]);
            }
            if cursor < content@.len() {
                assert(t[cursor - attribute_start] == content@[cursor as int]);
            }
            crate::text::lemma_run_len_at(t, |c: char| attribute_char(c), cursor - attribute_start);
        }
        if cursor == attribute_start {
            return Err(HtmlStructureError);
        }
        let attribute = slice_chars(content, attribute_start, cursor);
        skip_space(content, &mut cursor);
        let value: Option<Vec<char>> = if cursor < content.len() && content[cursor] == '=' {
            cursor = cursor + 1;
            skip_space(content, &mut cursor);
            Some(attribute_value(content, &mut cursor)?)
        } else {
            None
        };
        if crate::text::chars_equal(attribute.as_slice(), wanted) {
            let empty = match &value {
                Some(v) => v.len() == 0,
                None => false,
            };
            if empty {
                return Err(HtmlStructureError);
            }
            if let AttributeState::Present(_) = seen {
                return Err(HtmlStructureError);
            }
            seen = AttributeState::Present(value);
        }
        proof {
            assert(before < cursor);
        }
    }
}

/// The token that starts with the `<` at `start`.
pub fn parse_token(html: &Vec<char>, start: usize, wanted: &[char]) -> (r: Result<Token, HtmlStructureError>)
    ensures
        r matches Ok(t) ==> spec_parse_token(html@, start as int, wanted@) == Some(t@),
        r is Err ==> spec_parse_token(html@, start as int, wanted@) is None,
{
    let n = html.len();
    if start >= n || html[start] != '<' {
        return Err(HtmlStructureError);
    }
    if 4 <= n - start && html[start + 1] == '!' && html[start + 2] == '-' && html[start + 3] == '-' {
        proof {
            assert(html@.subrange(start as int, start + 4) =~= seq!['<', '!', '-', '-']);
        }
        let pat = ['-', '-', '>'];
        proof {
            assert(pat@ =~= seq!['-', '-', '>']);
        }
        return match find_seq_exec(html, &pat, start) {
            Some(p) => {
                proof {
                    lemma_find_seq_bounds(html@, seq!['-', '-', '>'], start as int);
                }
                Ok(Token::Ignored { end: p + 3 })
            },
            None => Err(HtmlStructureError),
        };
    }
    proof {
        if start + 4 <= n && html@.subrange(start as int, start + 4) == seq!['<', '!', '-', '-'] {
            assert(html@.subrange(start as int, start + 4)[1] == html@[start + 1]);
            assert(html@.subrange(start as int, start + 4)[2] == html@[start + 2]);
            assert(html@.subrange(start as int, start + 4)[3] == html@[start + 3]);
        }
    }
    let end = tag_end(html, start)?;
    proof {
        lemma_tag_end_bounds(html@, start as int + 1, None);
    }
    let content = slice_chars(html, start + 1, end - 1);
    if content.len() > 0 && (content[0] == '!' || content[0] == '?') {
        return Ok(Token::Ignored { end });
    }
    if content.len() > 0 && content[0] == '/' {
        let rest = slice_chars(&content, 1, content.len());
        proof {
            assert(rest@ =~= content@.drop_first());
        }
        let name = closing_name(&rest)?;
        return Ok(Token::Closing(ClosingToken { name, start, end }));
    }
    let (name, value, self_closing) = opening_parts(&content, wanted)?;
    Ok(Token::Opening(OpeningToken { name, value, self_closing, end }))
}

pub proof fn lemma_tag_end_bounds(s: Seq<char>, i: int, quote: Option<char>)
    ensures
        tag_end_from(s, i, quote) matches Some(e) ==> i < e <= s.len() && s[e - 1] == '>',
    decreases s.len() - i,
{
    if 0 <= i < s.len() {
        match quote {
            Some(q) => if s[i] == q {
                lemma_tag_end_bounds(s, i + 1, None);
            } else {
                lemma_tag_end_bounds(s, i + 1, quote);
            },
            None => if s[i] == '\'' || s[i] == '"' {
                lemma_tag_end_bounds(s, i + 1, Some(s[i]));
            } else if s[i] == '>' {
            } else if s[i] == '<' {
            } else {
                lemma_tag_end_bounds(s, i + 1, None);
            },
        }
    }
}

} // verus!

verus! {

pub proof fn lemma_token_end(html: Seq<char>, start: int, wanted: Seq<char>)
    ensures
        spec_parse_token(html, start, wanted) matches Some(t) ==> start < t.end() <= html.len(),
{
    if !(start < 0 || start >= html.len() || html[start] != '<') {
        lemma_find_seq_bounds(html, seq!['-', '-', '>'], start);
        lemma_tag_end_bounds(html, start + 1, None);
    }
}

pub proof fn lemma_raw_text_end(html: Seq<char>, cursor: int, name: Seq<char>)
    ensures
        raw_text_end_from(html, cursor, name) matches Some(e) ==> cursor < e <= html.len(),
    decreases html.len() - cursor,
{
    lemma_find_seq_bounds(html, seq!['<', '/'], cursor);
    match find_seq(html, seq!['<', '/'], cursor) {
        None => {},
        Some(close_at) => {
            lemma_token_end(html, close_at, Seq::empty());
            let ns = close_at + 2;
            match byte_span_end(html, ns, name.len()) {
                None => {},
                Some(e) => {
                    let boundary = e < html.len() && (is_ascii_space(html[e]) || html[e] == '>');
                    if !(eq_ignore_ascii_case(html.subrange(ns, e), name) && boundary) {
                        lemma_raw_text_end(html, ns, name);
                    }
                },
            }
        },
    }
}

} // verus!
