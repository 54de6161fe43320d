//! The end of raw-text element content.

use vstd::prelude::*;

use super::{
    byte_span_end, find_seq_exec, lemma_find_seq_bounds, parse_token, raw_text_end_from,
    HtmlStructureError, Token, };
use crate::source_document_html::element_name::same_name;
use crate::text::{
    byte_len, lemma_byte_len_increasing, lemma_byte_len_step, is_ascii_space_exec, slice_chars, utf8_width_exec,
};

verus! {

/// The character index at which `n` bytes after `from` end, when that falls on a character.
fn byte_span_end_exec(s: &Vec<char>, from: usize, n: usize) -> (r: Option<usize>)
    requires
        from <= s@.len(),
    ensures
        r matches Some(e) ==> byte_span_end(s@, from as int, n as nat) == Some(e as int),
        r is None ==> byte_span_end(s@, from as int, n as nat) is None,
{
    let ghost t = s@.skip(from as int);
    let mut k = from;
    let mut acc: u128 = 0;
    proof {
        assert(t.take(0) =~= Seq::<char>::empty());
    }
    while k < s.len() && acc < n as u128
        invariant
            from <= k <= s@.len(),
            t == s@.skip(from as int),
            acc == byte_len(t.take(k - from)),
            acc <= n + 4,
            forall|j: int| 0 <= j < k - from ==> byte_len(t.take(j)) < n,
        decreases s@.len() - k,
    {
        proof {
            lemma_byte_len_step(t, k - from);
            assert(t[k - from] == s@[k as int]);
        }
        acc = acc + utf8_width_exec(s[k]) as u128;
        k = k + 1;
    }
    proof {
        assert forall|e: int| from <= e <= s@.len() implies s@.subrange(from as int, e) == t.take(
            e - from,
        ) by {
            assert(s@.subrange(from as int, e) =~= t.take(e - from));
        }
    }
    if acc == n as u128 {
        proof {
            let c = choose|e: int| from <= e <= s@.len() && byte_len(s@.subrange(from as int, e)) == n;
            assert(from <= k <= s@.len() && byte_len(s@.subrange(from as int, k as int)) == n);
            if c != k {
                if c < k {
                    lemma_byte_len_increasing(t, c - from, k - from);
                } else {
                    lemma_byte_len_increasing(t, k - from, c - from);
                }
            }
        }
        Some(k)
    } else {
        proof {
            assert forall|e: int| from <= e <= s@.len() implies byte_len(s@.subrange(from as int, e)) != n by {
                if e < k {
                } else if e > k {
                    lemma_byte_len_increasing(t, k - from, e - from);
                }
            }
        }
        None
    }
}

/// The end of the raw text that starts at `content_start` inside a `name` element.
pub fn raw_text_end(html: &Vec<char>, content_start: usize, name: &Vec<char>) -> (r: Result<usize, HtmlStructureError>)
    ensures
        r matches Ok(e) ==> raw_text_end_from(html@, content_start as int, name@) == Some(e as int),
        r is Err ==> raw_text_end_from(html@, content_start as int, name@) is None,
{
    let pat = ['<', '/'];
    proof {
        assert(pat@ =~= seq!['<', '/']);
    }
    let empty: [char; 0] = [];
    proof {
        assert(empty@ =~= Seq::<char>::empty());
    }
    let n = html.len();
    let mut cursor = content_start;
    loop
        invariant
            n == html@.len(),
            pat@ == seq!['<', '/'],
            empty@ == Seq::<char>::empty(),
            raw_text_end_from(html@, content_start as int, name@) == raw_text_end_from(
                html@,
                cursor as int,
                name@,
            ),
        decreases html@.len() - cursor,
    {
        let close_at = match find_seq_exec(html, &pat, cursor) {
            Some(p) => p,
            None => {
                return Err(HtmlStructureError);
            },
        };
        proof {
            lemma_find_seq_bounds(html@, seq!['<', '/'], cursor as int);
        }
        let name_start = close_at + 2;
        let e = match byte_span_end_exec(html, name_start, name.len()) {
            Some(e) => e,
            None => {
                return Err(HtmlStructureError);
            },
        };
        proof {
            let c = choose|x: int| name_start <= x <= html@.len() && byte_len(html@.subrange(name_start as int, x)) == name@.len();
            assert(name_start <= e);
        }
        let candidate = slice_chars(html, name_start, e);
        let boundary = e < html.len() && (is_ascii_space_exec(html[e]) || html[e] == '>');
        if same_name(candidate.as_slice(), name.as_slice()) && boundary {
            return match parse_token(html, close_at, &empty) {
                Ok(Token::Closing(closing)) => {
                    if same_name(name.as_slice(), closing.name.as_slice()) {
                        Ok(closing.end)
                    } else {
                        Err(HtmlStructureError)
                    }
                },
                _ => Err(HtmlStructureError),
            };
        }
        cursor = name_start;
    }
}

} // verus!
