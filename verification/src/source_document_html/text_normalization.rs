//! Rendered, entity-decoded and whitespace-collapsed text of an HTML fragment.

use vstd::prelude::*;

use super::element_name::{inert_name, is_inert, is_raw_text, raw_text_name, same_name};
use super::tokenizer::raw_text::raw_text_end;
use super::tokenizer::{
    lemma_raw_text_end, lemma_token_end, next_markup, parse_token, raw_text_end_from,
    spec_next_markup, spec_parse_token, HtmlStructureError, Token, TokenView,
};
use crate::text::{chars_of, eq_ignore_ascii_case, is_space, is_space_exec, slice_chars};

verus! {

/// The visible text from `cursor` on, appended to `acc`: text between tags (a space stands for
/// each tag), nothing inside raw-text or inert elements.
pub open spec fn render_from(html: Seq<char>, cursor: int, inert: Seq<Seq<char>>, acc: Seq<char>) -> Option<Seq<char>>
    decreases html.len() - cursor,
{
    match spec_next_markup(html, cursor) {
        None => if inert.len() > 0 || cursor < 0 || cursor > html.len() {
            None
        } else {
            Some(acc + html.skip(cursor))
        },
        Some(open_at) => {
            proof {
                crate::text::lemma_run_to_bound(html.skip(cursor), '<');
                lemma_token_end(html, open_at, Seq::empty());
            }
            let acc1 = if inert.len() == 0 {
                acc + html.subrange(cursor, open_at) + seq![' ']
            } else {
                acc
            };
            match spec_parse_token(html, open_at, Seq::empty()) {
                None => None,
                Some(token) => match token {
                    TokenView::Opening { name, self_closing, end, .. } => if raw_text_name(name) {
                        if self_closing {
                            None
                        } else {
                            proof {
                                lemma_raw_text_end(html, end, name);
                            }
                            match raw_text_end_from(html, end, name) {
                                None => None,
                                Some(after) => render_from(html, after, inert, acc1),
                            }
                        }
                    } else if inert_name(name) {
                        if self_closing {
                            None
                        } else {
                            render_from(html, end, inert.push(name), acc1)
                        }
                    } else {
                        render_from(html, end, inert, acc1)
                    },
                    TokenView::Closing { name, end, .. } => if inert_name(name) {
                        if inert.len() == 0 || !eq_ignore_ascii_case(inert.last(), name) {
                            None
                        } else {
                            render_from(html, end, inert.drop_last(), acc1)
                        }
                    } else {
                        render_from(html, end, inert, acc1)
                    },
                    TokenView::Ignored { end } => render_from(html, end, inert, acc1),
                },
            }
        },
    }
}

pub open spec fn spec_rendered_text(html: Seq<char>) -> Option<Seq<char>> {
    render_from(html, 0, Seq::empty(), Seq::empty())
}

/// `str::replace`: every leftmost non-overlapping occurrence of the non-empty `pat` becomes `rep`.
pub open spec fn replace_all(s: Seq<char>, pat: Seq<char>, rep: Seq<char>) -> Seq<char>
    decreases s.len(),
{
    if s.len() == 0 {
        Seq::empty()
    } else if pat.len() > 0 && s.len() >= pat.len() && s.take(pat.len() as int) == pat {
        rep + replace_all(s.skip(pat.len() as int), pat, rep)
    } else {
        seq![s[0]] + replace_all(s.drop_first(), pat, rep)
    }
}

/// The six character references that sources commonly escape, decoded in a fixed order.
pub open spec fn decode_entities(s: Seq<char>) -> Seq<char> {
    let a = replace_all(s, "&nbsp;"@, " "@);
    let b = replace_all(a, "&amp;"@, "&"@);
    let c = replace_all(b, "&quot;"@, "\""@);
    let d = replace_all(c, "&#39;"@, "'"@);
    let e = replace_all(d, "&lt;"@, "<"@);
    replace_all(e, "&gt;"@, ">"@)
}

/// The words of `s` (runs without Unicode whitespace) joined by single spaces. `state` is 0
/// before the first word, 1 inside a word and 2 in whitespace after a word.
pub open spec fn collapse_from(s: Seq<char>, state: nat) -> Seq<char>
    decreases s.len(),
{
    if s.len() == 0 {
        Seq::empty()
    } else if is_space(s[0]) {
        collapse_from(s.drop_first(), if state == 0 { 0 } else { 2 })
    } else {
        (if state == 2 { seq![' ', s[0]] } else { seq![s[0]] }) + collapse_from(s.drop_first(), 1)
    }
}

pub open spec fn collapse_whitespace(s: Seq<char>) -> Seq<char> {
    collapse_from(s, 0)
}

/// The normalized text of an HTML fragment, empty when its structure is invalid.
pub open spec fn spec_normalize_text(value: Seq<char>) -> Seq<char> {
    match spec_rendered_text(value) {
        None => Seq::empty(),
        Some(text) => collapse_whitespace(decode_entities(text)),
    }
}

} // verus!

verus! {

/// The visible text of an HTML fragment.
pub fn rendered_text(html: &Vec<char>) -> (r: Result<Vec<char>, HtmlStructureError>)
    ensures
        r matches Ok(t) ==> spec_rendered_text(html@) == Some(t@),
        r is Err ==> spec_rendered_text(html@) is None,
{
    let mut text: Vec<char> = Vec::new();
    let mut inert: Vec<Vec<char>> = Vec::new();
    let mut cursor: usize = 0;
    let empty: [char; 0] = [];
    proof {
        assert(empty@ =~= Seq::<char>::empty());
        assert(crate::text::views(inert@) =~= Seq::<Seq<char>>::empty());
    }
    loop
        invariant
            cursor <= html@.len(),
            empty@ == Seq::<char>::empty(),
            spec_rendered_text(html@) == render_from(html@, cursor as int, crate::text::views(inert@), text@),
        decreases html@.len() - cursor,
    {
        let ghost inert_view = crate::text::views(inert@);
        let ghost acc0 = text@;
        let ghost cursor0 = cursor;
        let open_at = match next_markup(html, cursor) {
            Some(p) => p,
            None => {
                if inert.len() > 0 {
                    return Err(HtmlStructureError);
                }
                let tail = slice_chars(html, cursor, html.len());
                let ghost before = text@;
                let mut k: usize = 0;
                while k < tail.len()
                    invariant
                        k <= tail@.len(),
                        text@ == before + tail@.take(k as int),
                    decreases tail@.len() - k,
                {
                    text.push(tail[k]);
                    k = k + 1;
                    proof {
                        assert(text@ =~= before + tail@.take(k as int));
                    }
                }
                proof {
                    assert(tail@.take(k as int) =~= html@.skip(cursor as int));
                }
                return Ok(text);
            },
        };
        proof {
            crate::text::lemma_run_to_bound(html@.skip(cursor as int), '<');
            lemma_token_end(html@, open_at as int, Seq::empty());
        }
        if inert.len() == 0 {
            let ghost before = text@;
            let mut k = cursor;
            while k < open_at
                invariant
                    cursor <= k <= open_at <= html@.len(),
                    text@ == before + html@.subrange(cursor as int, k as int),
                decreases open_at - k,
            {
                text.push(html[k]);
                k = k + 1;
                proof {
                    assert(text@ =~= before + html@.subrange(cursor as int, k as int));
                }
            }
            text.push(' ');
            proof {
                assert(text@ =~= acc0 + html@.subrange(cursor0 as int, open_at as int) + seq![' ']);
            }
        }
        let ghost acc1 = text@;
        proof {
            assert(acc1 == (if inert_view.len() == 0 {
                acc0 + html@.subrange(cursor0 as int, open_at as int) + seq![' ']
            } else {
                acc0
            }));
        }
        let token = parse_token(html, open_at, &empty)?;
        cursor = token.end();
        match token {
            Token::Opening(opening) => {
                if is_raw_text(opening.name.as_slice()) {
                    if opening.self_closing {
                        return Err(HtmlStructureError);
                    }
                    proof {
                        lemma_raw_text_end(html@, opening.end as int, opening.name@);
                    }
                    cursor = raw_text_end(html, opening.end, &opening.name)?;
                } else if is_inert(opening.name.as_slice()) {
                    if opening.self_closing {
                        return Err(HtmlStructureError);
                    }
                    inert.push(opening.name);
                    proof {
                        assert(crate::text::views(inert@) =~= inert_view.push(opening.name@));
                    }
                }
            },
            Token::Closing(closing) => {
                if is_inert(closing.name.as_slice()) {
                    let expected = match inert.pop() {
                        Some(e) => e,
                        None => {
                            return Err(HtmlStructureError);
                        },
                    };
                    proof {
                        assert(expected@ == inert_view.last());
                        assert(crate::text::views(inert@) =~= inert_view.drop_last());
                    }
                    if !same_name(expected.as_slice(), closing.name.as_slice()) {
                        return Err(HtmlStructureError);
                    }
                }
            },
            Token::Ignored { .. } => {},
        }
    }
}

/// Every leftmost non-overlapping occurrence of `pat` replaced by `rep`.
pub fn replace_all_exec(s: &Vec<char>, pat: &[char], rep: &[char]) -> (r: Vec<char>)
    requires
        pat@.len() > 0,
    ensures
        r@ == replace_all(s@, pat@, rep@),
{
    let mut out: Vec<char> = Vec::new();
    let mut i: usize = 0;
    let n = s.len();
    proof {
        assert(s@.skip(0) =~= s@);
    }
    while i < n
        invariant
            n == s@.len(),
            i <= n,
            pat@.len() > 0,
            out@ + replace_all(s@.skip(i as int), pat@, rep@) == replace_all(s@, pat@, rep@),
        decreases n - i,
    {
        let ghost t = s@.skip(i as int);
        let mut matched = pat.len() <= n - i;
        if matched {
            let mut k: usize = 0;
            while k < pat.len()
                invariant
                    i + pat@.len() <= n == s@.len(),
                    k <= pat@.len(),
                    matched == forall|j: int| 0 <= j < k ==> s@[i + j] == pat@[j],
                decreases pat@.len() - k,
            {
                if s[i + k] != pat[k] {
                    matched = false;
                }
                k = k + 1;
            }
        }
        let ghost before = out@;
        if matched {
            proof {
                assert(t.take(pat@.len() as int) =~= pat@);
                assert(t.skip(pat@.len() as int) =~= s@.skip(i + pat@.len()));
            }
            let mut k: usize = 0;
            while k < rep.len()
                invariant
                    k <= rep@.len(),
                    out@ == before + rep@.take(k as int),
                decreases rep@.len() - k,
            {
                out.push(rep[k]);
                k = k + 1;
                proof {
                    assert(out@ =~= before + rep@.take(k as int));
                }
            }
            proof {
                assert(rep@.take(k as int) =~= rep@);
                assert(before + (rep@ + replace_all(s@.skip(i + pat@.len()), pat@, rep@)) =~= out@ + replace_all(s@.skip(i + pat@.len()), pat@, rep@));
            }
            i = i + pat.len();
        } else {
            proof {
                if t.len() >= pat@.len() {
                    assert(t.take(pat@.len() as int) != pat@) by {
                        let j = choose|j: int| 0 <= j < pat@.len() && s@[i + j] != pat@[j];
                        assert(t.take(pat@.len() as int)[j] == s@[i + j]);
                    }
                }
                assert(t.drop_first() =~= s@.skip(i + 1));
                assert(t[0] == s@[i as int]);
            }
            out.push(s[i]);
            proof {
                assert(before + (seq![s@[i as int]] + replace_all(s@.skip(i + 1), pat@, rep@)) =~= out@ + replace_all(s@.skip(i + 1), pat@, rep@));
            }
            i = i + 1;
        }
    }
    proof {
        assert(s@.skip(i as int) =~= Seq::<char>::empty());
        assert(out@ + Seq::<char>::empty() =~= out@);
    }
    out
}

fn replace_entity(s: &Vec<char>, pat: &str, rep: &str) -> (r: Vec<char>)
    requires
        pat@.len() > 0,
    ensures
        r@ == replace_all(s@, pat@, rep@),
{
    let p = chars_of(pat);
    let q = chars_of(rep);
    replace_all_exec(s, p.as_slice(), q.as_slice())
}

/// The words of `s` joined by single spaces.
pub fn collapse_whitespace_exec(s: &Vec<char>) -> (r: Vec<char>)
    ensures
        r@ == collapse_whitespace(s@),
{
    let mut out: Vec<char> = Vec::new();
    let mut state: u8 = 0;
    let mut i: usize = 0;
    proof {
        assert(s@.skip(0) =~= s@);
    }
    while i < s.len()
        invariant
            i <= s@.len(),
            state <= 2,
            out@ + collapse_from(s@.skip(i as int), state as nat) == collapse_whitespace(s@),
        decreases s@.len() - i,
    {
        let ghost t = s@.skip(i as int);
        let ghost before = out@;
        proof {
            assert(t.drop_first() =~= s@.skip(i + 1));
            assert(t[0] == s@[i as int]);
        }
        let c = s[i];
        if is_space_exec(c) {
            if state != 0 {
                state = 2;
            }
        } else {
            if state == 2 {
                out.push(' ');
            }
            out.push(c);
            state = 1;
        }
        proof {
            assert(out@ + collapse_from(s@.skip(i + 1), state as nat) =~= collapse_whitespace(s@));
        }
        i = i + 1;
    }
    proof {
        assert(s@.skip(i as int) =~= Seq::<char>::empty());
        assert(out@ + Seq::<char>::empty() =~= out@);
    }
    out
}

/// The normalized text of an HTML fragment: rendered, entity-decoded, whitespace-collapsed,
/// and empty when the fragment's structure is invalid.
pub fn normalize_text(value: &Vec<char>) -> (r: Vec<char>)
    ensures
        r@ == spec_normalize_text(value@),
{
    proof {
        reveal_strlit("&nbsp;");
        reveal_strlit("&amp;");
        reveal_strlit("&quot;");
        reveal_strlit("&#39;");
        reveal_strlit("&lt;");
        reveal_strlit("&gt;");
    }
    let rendered = match rendered_text(value) {
        Ok(t) => t,
        Err(_) => {
            return Vec::new();
        },
    };
    let a = replace_entity(&rendered, "&nbsp;", " ");
    let b = replace_entity(&a, "&amp;", "&");
    let c = replace_entity(&b, "&quot;", "\"");
    let d = replace_entity(&c, "&#39;", "'");
    let e = replace_entity(&d, "&lt;", "<");
    let f = replace_entity(&e, "&gt;", ">");
    collapse_whitespace_exec(&f)
}

} // verus!
