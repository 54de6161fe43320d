//! Heading-delimited fallback sections for small non-panel sources.

use vstd::prelude::*;

use crate::source_document_html::text_normalization::{normalize_text, spec_normalize_text};
use crate::source_document_html::tokenizer::{
    find_char, find_seq, find_seq_exec, lemma_find_seq_bounds, next_markup, spec_next_markup,
    HtmlStructureError,
};
use crate::text::{ascii_words, ascii_words_of, equals_str, scan_to, slice_chars, views};

verus! {

/// `w` without its trailing slashes.
pub open spec fn trim_slashes(w: Seq<char>) -> Seq<char>
    decreases w.len(),
{
    if w.len() > 0 && w.last() == '/' {
        trim_slashes(w.drop_last())
    } else {
        w
    }
}

/// The tag name of a tag's inner text: its first word without trailing slashes.
pub open spec fn heading_tag(opening: Seq<char>) -> Seq<char> {
    let words = ascii_words(opening);
    if words.len() == 0 {
        Seq::empty()
    } else {
        trim_slashes(words[0])
    }
}

/// `h1` to `h6`, exactly.
pub open spec fn heading_name(tag: Seq<char>) -> bool {
    tag == "h1"@ || tag == "h2"@ || tag == "h3"@ || tag == "h4"@ || tag == "h5"@ || tag == "h6"@
}

/// The start of the first `</tag` after `content_start` and the index after its `>`.
pub open spec fn spec_matching_close(html: Seq<char>, tag: Seq<char>, content_start: int) -> Option<(int, int)> {
    match find_seq(html, seq!['<', '/'] + tag, content_start) {
        None => None,
        Some(close_at) => match find_char(html, '>', close_at) {
            None => None,
            Some(p) => Some((close_at, p + 1)),
        },
    }
}

/// One heading: where its tag opens, where its element ends, and its raw label.
pub struct HeadingView {
    pub open_at: int,
    pub element_end: int,
    pub label: Seq<char>,
}

/// The headings from `cursor` on, appended to `acc`.
pub open spec fn headings_from(html: Seq<char>, cursor: int, acc: Seq<HeadingView>) -> Option<Seq<HeadingView>>
    decreases html.len() - cursor,
{
    match spec_next_markup(html, cursor) {
        None => Some(acc),
        Some(open_at) => match find_char(html, '>', open_at) {
            None => None,
            Some(open_end) => {
                proof {
                    crate::text::lemma_run_to_bound(html.skip(cursor), '<');
                    crate::text::lemma_run_to_bound(html.skip(open_at), '>');
                }
                if open_at + 1 > open_end {
                    None
                } else {
                    let tag = heading_tag(html.subrange(open_at + 1, open_end));
                    if !heading_name(tag) {
                        headings_from(html, open_end + 1, acc)
                    } else {
                        match spec_matching_close(html, tag, open_end + 1) {
                            None => None,
                            Some((content_end, element_end)) => {
                                proof {
                                    lemma_find_seq_bounds(html, seq!['<', '/'] + tag, open_end + 1);
                                }
                                if open_end + 1 > content_end {
                                    None
                                } else {
                                    headings_from(
                                        html,
                                        element_end,
                                        acc.push(
                                            HeadingView {
                                                open_at,
                                                element_end,
                                                label: html.subrange(open_end + 1, content_end),
                                            },
                                        ),
                                    )
                                }
                            },
                        }
                    }
                }
            },
        },
    }
}

/// Where the body of heading `i` ends: at the next heading's tag, or at the end of the input.
pub open spec fn body_end(html: Seq<char>, hs: Seq<HeadingView>, i: int) -> int {
    if i + 1 < hs.len() {
        hs[i + 1].open_at
    } else {
        html.len() as int
    }
}

/// The heading sections of `html`: each heading's normalized label with the normalized text up
/// to the next heading.
pub open spec fn spec_heading_sections(html: Seq<char>) -> Option<Seq<(Seq<char>, Seq<char>)>> {
    match headings_from(html, 0, Seq::empty()) {
        None => None,
        Some(hs) => if exists|i: int|
            0 <= i < hs.len() && !(0 <= #[trigger] hs[i].element_end <= body_end(html, hs, i)
                <= html.len()) {
            None
        } else {
            Some(
                Seq::new(
                    hs.len(),
                    |i: int|
                        (
                            spec_normalize_text(hs[i].label),
                            spec_normalize_text(
                                html.subrange(hs[i].element_end, body_end(html, hs, i)),
                            ),
                        ),
                ),
            )
        },
    }
}

} // verus!

verus! {

/// `h1` to `h6`, exactly.
pub fn is_heading(tag: &[char]) -> (r: bool)
    ensures
        r == heading_name(tag@),
{
    equals_str(tag, "h1") || equals_str(tag, "h2") || equals_str(tag, "h3") || equals_str(tag, "h4")
        || equals_str(tag, "h5") || equals_str(tag, "h6")
}

fn tag_of(opening: &Vec<char>) -> (r: Vec<char>)
    ensures
        r@ == heading_tag(opening@),
{
    let words = ascii_words_of(opening);
    proof {
        assert(views(words@).len() == words@.len());
    }
    if words.len() == 0 {
        return Vec::new();
    }
    let w = &words[0];
    proof {
        assert(views(words@)[0] == w@);
    }
    let mut end = w.len();
    proof {
        assert(w@.take(end as int) =~= w@);
    }
    while end > 0 && w[end - 1] == '/'
        invariant
            end <= w@.len(),
            trim_slashes(w@) == trim_slashes(w@.take(end as int)),
        decreases end,
    {
        proof {
            assert(w@.take(end as int).drop_last() =~= w@.take(end - 1));
        }
        end = end - 1;
    }
    let r = slice_chars(w, 0, end);
    proof {
        assert(r@ =~= w@.take(end as int));
    }
    r
}

/// The first `</tag` at or after `content_start` and the index just after its `>`.
pub fn matching_close(html: &Vec<char>, tag: &Vec<char>, content_start: usize) -> (r: Result<(usize, usize), HtmlStructureError>)
    ensures
        r matches Ok((a, b)) ==> spec_matching_close(html@, tag@, content_start as int) == Some((a as int, b as int)),
        r is Err ==> spec_matching_close(html@, tag@, content_start as int) is None,
{
    let mut close: Vec<char> = Vec::new();
    close.push('<');
    close.push('/');
    let mut k: usize = 0;
    while k < tag.len()
        invariant
            k <= tag@.len(),
            close@ == seq!['<', '/'] + tag@.take(k as int),
        decreases tag@.len() - k,
    {
        close.push(tag[k]);
        k = k + 1;
        proof {
            assert(close@ =~= seq!['<', '/'] + tag@.take(k as int));
        }
    }
    proof {
        assert(tag@.take(k as int) =~= tag@);
    }
    let close_at = match find_seq_exec(html, close.as_slice(), content_start) {
        Some(p) => p,
        None => {
            return Err(HtmlStructureError);
        },
    };
    proof {
        lemma_find_seq_bounds(html@, close@, content_start as int);
    }
    let p = scan_to(html, close_at, '>');
    if p == html.len() {
        return Err(HtmlStructureError);
    }
    Ok((close_at, p + 1))
}

/// The heading sections of `html`: each heading's normalized label with the normalized text up
/// to the next heading.
pub fn heading_sections(html: &Vec<char>) -> (r: Result<Vec<(Vec<char>, Vec<char>)>, HtmlStructureError>)
    ensures
        r matches Ok(v) ==> spec_heading_sections(html@) == Some(
            Seq::new(v@.len(), |i: int| (v@[i].0@, v@[i].1@)),
        ),
        r is Err ==> spec_heading_sections(html@) is None,
{
    let mut headings: Vec<(usize, usize, Vec<char>)> = Vec::new();
    let mut cursor: usize = 0;
    proof {
        assert(Seq::new(
            headings@.len(),
            |i: int|
                HeadingView {
                    open_at: headings@[i].0 as int,
                    element_end: headings@[i].1 as int,
                    label: headings@[i].2@,
                },
        ) =~= Seq::<HeadingView>::empty());
    }
    loop
        invariant
            cursor <= html@.len(),
            headings_from(html@, 0, Seq::empty()) == headings_from(
                html@,
                cursor as int,
                Seq::new(
                    headings@.len(),
                    |i: int|
                        HeadingView {
                            open_at: headings@[i].0 as int,
                            element_end: headings@[i].1 as int,
                            label: headings@[i].2@,
                        },
                ),
            ),
        ensures
            headings_from(html@, 0, Seq::empty()) == Some(
                Seq::new(
                    headings@.len(),
                    |i: int|
                        HeadingView {
                            open_at: headings@[i].0 as int,
                            element_end: headings@[i].1 as int,
                            label: headings@[i].2@,
                        },
                ),
            ),
        decreases html@.len() - cursor,
    {
        let ghost hv = Seq::new(
            headings@.len(),
            |i: int|
                HeadingView {
                    open_at: headings@[i].0 as int,
                    element_end: headings@[i].1 as int,
                    label: headings@[i].2@,
                },
        );
        let open_at = match next_markup(html, cursor) {
            Some(p) => p,
            None => {
                break;
            },
        };
        proof {
            crate::text::lemma_run_to_bound(html@.skip(cursor as int), '<');
        }
        let open_end = scan_to(html, open_at, '>');
        if open_end == html.len() {
            return Err(HtmlStructureError);
        }
        if open_at + 1 > open_end {
            return Err(HtmlStructureError);
        }
        let opening = slice_chars(html, open_at + 1, open_end);
        let tag = tag_of(&opening);
        if !is_heading(tag.as_slice()) {
            cursor = open_end + 1;
            continue;
        }
        let (content_end, element_end) = matching_close(html, &tag, open_end + 1)?;
        proof {
            lemma_find_seq_bounds(html@, seq!['<', '/'] + tag@, open_end + 1);
            crate::text::lemma_run_to_bound(html@.skip(content_end as int), '>');
        }
        if open_end + 1 > content_end {
            return Err(HtmlStructureError);
        }
        let label = slice_chars(html, open_end + 1, content_end);
        let ghost lv = label@;
        headings.push((open_at, element_end, label));
        proof {
            assert(Seq::new(
                headings@.len(),
                |i: int|
                    HeadingView {
                        open_at: headings@[i].0 as int,
                        element_end: headings@[i].1 as int,
                        label: headings@[i].2@,
                    },
            ) =~= hv.push(HeadingView { open_at: open_at as int, element_end: element_end as int, label: lv }));
        }
        cursor = element_end;
    }
    let ghost hs = Seq::new(
        headings@.len(),
        |i: int|
            HeadingView {
                open_at: headings@[i].0 as int,
                element_end: headings@[i].1 as int,
                label: headings@[i].2@,
            },
    );
    let mut sections: Vec<(Vec<char>, Vec<char>)> = Vec::new();
    let mut index: usize = 0;
    while index < headings.len()
        invariant
            index <= headings@.len() == hs.len(),
            hs == Seq::new(
                headings@.len(),
                |i: int|
                    HeadingView {
                        open_at: headings@[i].0 as int,
                        element_end: headings@[i].1 as int,
                        label: headings@[i].2@,
                    },
            ),
            sections@.len() == index,
            headings_from(html@, 0, Seq::empty()) == Some(hs),
            forall|i: int| 0 <= i < index ==> 0 <= #[trigger] hs[i].element_end <= body_end(html@, hs, i) <= html@.len(),
            forall|i: int|
                0 <= i < index ==> (#[trigger] sections@[i].0@, sections@[i].1@) == (
                    spec_normalize_text(hs[i].label),
                    spec_normalize_text(html@.subrange(hs[i].element_end, body_end(html@, hs, i))),
                ),
        decreases headings@.len() - index,
    {
        let body_end_exec = if index + 1 < headings.len() {
            headings[index + 1].0
        } else {
            html.len()
        };
        let body_start = headings[index].1;
        proof {
            assert(body_start == hs[index as int].element_end);
            assert(body_end_exec == body_end(html@, hs, index as int));
        }
        if !(body_start <= body_end_exec && body_end_exec <= html.len()) {
            proof {
                assert(!(0 <= hs[index as int].element_end <= body_end(html@, hs, index as int) <= html@.len()));
                assert(exists|i: int| 0 <= i < hs.len() && !(0 <= #[trigger] hs[i].element_end <= body_end(html@, hs, i) <= html@.len()));
            }
            return Err(HtmlStructureError);
        }
        let body = slice_chars(html, body_start, body_end_exec);
        let label_text = normalize_text(&headings[index].2);
        let body_text = normalize_text(&body);
        sections.push((label_text, body_text));
        proof {
            assert(0 <= hs[index as int].element_end <= body_end(html@, hs, index as int) <= html@.len());
            assert forall|i: int| 0 <= i < index + 1 implies 0 <= #[trigger] hs[i].element_end <= body_end(html@, hs, i) <= html@.len() by {
                if i < index {
                }
            }
        }
        index = index + 1;
    }
    proof {
        assert(Seq::new(sections@.len(), |i: int| (sections@[i].0@, sections@[i].1@)) =~= Seq::new(
            hs.len(),
            |i: int|
                (
                    spec_normalize_text(hs[i].label),
                    spec_normalize_text(html@.subrange(hs[i].element_end, body_end(html@, hs, i))),
                ),
        ));
    }
    Ok(sections)
}

} // verus!
