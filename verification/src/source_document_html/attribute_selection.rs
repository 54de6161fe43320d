//! Extraction of the elements that carry one attribute, in document order.

use vstd::prelude::*;

use super::element_name::{
    inert_name, is_inert, is_raw_text, is_void, raw_text_name, same_name, void_name,
};
use super::tokenizer::raw_text::raw_text_end;
use super::tokenizer::{
    lemma_raw_text_end, lemma_token_end, next_markup, parse_token, raw_text_end_from,
    spec_next_markup, spec_parse_token, AttrView, AttributeState, HtmlStructureError,
    OpeningToken, Token, TokenView,
};
use crate::text::{eq_ignore_ascii_case, slice_chars};

verus! {

/// An element that carries the wanted attribute: the attribute's value and the element's raw
/// content between its opening and matching closing tag.
pub struct ElementView {
    pub value: Option<Seq<char>>,
    pub content: Seq<char>,
}

/// An element whose closing tag has not been seen yet.
pub struct CaptureView {
    pub name: Seq<char>,
    pub content_start: int,
    pub depth: int,
    pub value: Option<Seq<char>>,
    pub order: int,
}

/// The selection state: open captures, one slot per captured element in opening order (filled
/// when it closes), and the stack of open inert elements.
pub struct SelectionView {
    pub captures: Seq<CaptureView>,
    pub slots: Seq<Option<ElementView>>,
    pub inert: Seq<Seq<char>>,
}

pub open spec fn empty_selection() -> SelectionView {
    SelectionView { captures: Seq::empty(), slots: Seq::empty(), inert: Seq::empty() }
}

/// Every open capture of the same name is one level deeper.
pub open spec fn deepen(captures: Seq<CaptureView>, name: Seq<char>) -> Seq<CaptureView> {
    Seq::new(
        captures.len(),
        |i: int|
            if eq_ignore_ascii_case(captures[i].name, name) {
                CaptureView { depth: captures[i].depth + 1, ..captures[i] }
            } else {
                captures[i]
            },
    )
}

/// Opening an element: nested same-name captures deepen; an inert element is pushed (it may not
/// self-close); the wanted attribute starts a capture unless it is hidden in inert content or on
/// a self-closing or void element.
pub open spec fn spec_open(st: SelectionView, name: Seq<char>, value: AttrView, self_closing: bool, end: int) -> Option<SelectionView> {
    if exists|i: int|
        0 <= i < st.captures.len() && eq_ignore_ascii_case(#[trigger] st.captures[i].name, name)
            && st.captures[i].depth >= usize::MAX {
        None
    } else {
        let captures = deepen(st.captures, name);
        let hidden = st.inert.len() > 0 || inert_name(name);
        if inert_name(name) && self_closing {
            None
        } else {
            let inert = if inert_name(name) {
                st.inert.push(name)
            } else {
                st.inert
            };
            match value {
                AttrView::Missing => Some(SelectionView { captures, slots: st.slots, inert }),
                AttrView::Present(v) => if hidden || self_closing || void_name(name) {
                    None
                } else if st.slots.len() >= usize::MAX {
                    None
                } else {
                    Some(
                        SelectionView {
                            captures: captures.push(
                                CaptureView {
                                    name,
                                    content_start: end,
                                    depth: 1,
                                    value: v,
                                    order: st.slots.len() as int,
                                },
                            ),
                            slots: st.slots.push(None),
                            inert,
                        },
                    )
                },
            }
        }
    }
}

/// Closing `name` at `content_end`, from capture `i` on: same-name captures become one level
/// shallower, and one that reaches depth zero is complete and fills its slot.
pub open spec fn close_from(html: Seq<char>, captures: Seq<CaptureView>, slots: Seq<Option<ElementView>>, name: Seq<char>, content_end: int, i: int) -> Option<(Seq<CaptureView>, Seq<Option<ElementView>>)>
    decreases captures.len() - i,
{
    if i < 0 || i >= captures.len() {
        Some((captures, slots))
    } else if !eq_ignore_ascii_case(captures[i].name, name) {
        close_from(html, captures, slots, name, content_end, i + 1)
    } else if captures[i].depth <= 0 {
        None
    } else if captures[i].depth - 1 != 0 {
        close_from(
            html,
            captures.update(i, CaptureView { depth: captures[i].depth - 1, ..captures[i] }),
            slots,
            name,
            content_end,
            i + 1,
        )
    } else {
        let c = captures[i];
        if !(0 <= c.content_start <= content_end <= html.len()) {
            None
        } else {
            close_from(
                html,
                captures.remove(i),
                slots.update(
                    c.order,
                    Some(ElementView { value: c.value, content: html.subrange(c.content_start, content_end) }),
                ),
                name,
                content_end,
                i,
            )
        }
    }
}

/// Closing an element; an inert closing tag must match the innermost open inert element.
pub open spec fn spec_close(st: SelectionView, html: Seq<char>, name: Seq<char>, content_end: int) -> Option<SelectionView> {
    match close_from(html, st.captures, st.slots, name, content_end, 0) {
        None => None,
        Some((captures, slots)) => if inert_name(name) {
            if st.inert.len() == 0 || !eq_ignore_ascii_case(st.inert.last(), name) {
                None
            } else {
                Some(SelectionView { captures, slots, inert: st.inert.drop_last() })
            }
        } else {
            Some(SelectionView { captures, slots, inert: st.inert })
        },
    }
}

/// At the end of input nothing may remain open; the elements come in opening order.
pub open spec fn spec_finish(st: SelectionView) -> Option<Seq<ElementView>> {
    if st.captures.len() > 0 || st.inert.len() > 0 {
        None
    } else {
        Some(Seq::new(st.slots.len(), |k: int| st.slots[k]->0))
    }
}

/// The selection from `cursor` on, token by token; raw-text elements are skipped whole.
pub open spec fn select_from(html: Seq<char>, wanted: Seq<char>, cursor: int, st: SelectionView) -> Option<Seq<ElementView>>
    decreases html.len() - cursor,
{
    match spec_next_markup(html, cursor) {
        None => spec_finish(st),
        Some(open_at) => match spec_parse_token(html, open_at, wanted) {
            None => None,
            Some(token) => {
                proof {
                    lemma_token_end(html, open_at, wanted);
                    crate::text::lemma_run_to_bound(html.skip(cursor), '<');
                }
                match token {
                    TokenView::Ignored { end } => select_from(html, wanted, end, st),
                    TokenView::Opening { name, value, self_closing, end } => if raw_text_name(name) {
                        if self_closing {
                            None
                        } else {
                            proof {
                                lemma_raw_text_end(html, end, name);
                            }
                            match raw_text_end_from(html, end, name) {
                                None => None,
                                Some(after) => select_from(html, wanted, after, st),
                            }
                        }
                    } else {
                        match spec_open(st, name, value, self_closing, end) {
                            None => None,
                            Some(next) => select_from(html, wanted, end, next),
                        }
                    },
                    TokenView::Closing { name, start, end } => match spec_close(st, html, name, start) {
                        None => None,
                        Some(next) => select_from(html, wanted, end, next),
                    },
                }
            },
        },
    }
}

/// The elements of `html` that carry the attribute `wanted`.
pub open spec fn spec_elements_with_attribute(html: Seq<char>, wanted: Seq<char>) -> Option<Seq<ElementView>> {
    select_from(html, wanted, 0, empty_selection())
}

} // verus!

verus! {

/// An element that carries the wanted attribute.
#[derive(Debug)]
pub struct AttributedElement {
    pub value: Option<Vec<char>>,
    pub content: Vec<char>,
}

impl View for AttributedElement {
    type V = ElementView;

    open spec fn view(&self) -> ElementView {
        ElementView {
            value: match self.value {
                Some(v) => Some(v@),
                None => None,
            },
            content: self.content@,
        }
    }
}

pub open spec fn element_views(v: Seq<AttributedElement>) -> Seq<ElementView> {
    Seq::new(v.len(), |i: int| v[i]@)
}

/// An element with the wanted attribute whose closing tag is still to come.
pub struct Capture {
    pub name: Vec<char>,
    pub content_start: usize,
    pub depth: usize,
    pub value: Option<Vec<char>>,
    pub order: usize,
}

impl View for Capture {
    type V = CaptureView;

    open spec fn view(&self) -> CaptureView {
        CaptureView {
            name: self.name@,
            content_start: self.content_start as int,
            depth: self.depth as int,
            value: match self.value {
                Some(v) => Some(v@),
                None => None,
            },
            order: self.order as int,
        }
    }
}

pub open spec fn slot_view(s: Option<AttributedElement>) -> Option<ElementView> {
    match s {
        Some(e) => Some(e@),
        None => None,
    }
}

/// The running state of an attribute selection.
pub struct Selection {
    pub captures: Vec<Capture>,
    pub slots: Vec<Option<AttributedElement>>,
    pub inert: Vec<Vec<char>>,
}

impl View for Selection {
    type V = SelectionView;

    open spec fn view(&self) -> SelectionView {
        SelectionView {
            captures: Seq::new(self.captures@.len(), |i: int| self.captures@[i]@),
            slots: Seq::new(self.slots@.len(), |k: int| slot_view(self.slots@[k])),
            inert: Seq::new(self.inert@.len(), |i: int| self.inert@[i]@),
        }
    }
}

/// Open captures point at empty slots, every empty slot belongs to an open capture,
/// and open captures are at least one level deep.
pub open spec fn selection_wf(st: SelectionView) -> bool {
    &&& forall|i: int| 0 <= i < st.captures.len() ==> 0 <= #[trigger] st.captures[i].order < st.slots.len()
    &&& forall|i: int| 0 <= i < st.captures.len() ==> #[trigger] st.captures[i].depth >= 1
    &&& forall|k: int|
        0 <= k < st.slots.len() && #[trigger] st.slots[k] is None ==> exists|i: int|
            0 <= i < st.captures.len() && #[trigger] st.captures[i].order == k
}

impl Selection {
    pub fn new() -> (s: Selection)
        ensures
            s@ == empty_selection(),
            selection_wf(s@),
    {
        let s = Selection { captures: Vec::new(), slots: Vec::new(), inert: Vec::new() };
        proof {
            assert(s@.captures =~= Seq::<CaptureView>::empty());
            assert(s@.slots =~= Seq::<Option<ElementView>>::empty());
            assert(s@.inert =~= Seq::<Seq<char>>::empty());
        }
        s
    }

    /// Deepen every open capture of the same name.
    pub fn increment_depths(&mut self, name: &[char]) -> (r: Result<(), HtmlStructureError>)
        requires
            selection_wf(old(self)@),
        ensures
            r is Ok <==> !(exists|i: int|
                0 <= i < old(self)@.captures.len() && eq_ignore_ascii_case(
                    #[trigger] old(self)@.captures[i].name,
                    name@,
                ) && old(self)@.captures[i].depth >= usize::MAX),
            r is Ok ==> final(self)@ == (SelectionView { captures: deepen(old(self)@.captures, name@), ..old(self)@ }),
            r is Ok ==> selection_wf(final(self)@),
    {
        let ghost old_caps = self@.captures;
        let mut i: usize = 0;
        while i < self.captures.len()
            invariant
                i <= self.captures@.len() == old_caps.len(),
                selection_wf(old(self)@),
                old_caps == old(self)@.captures,
                self.slots@ == old(self).slots@,
                self.inert@ == old(self).inert@,
                forall|j: int| 0 <= j < i ==> #[trigger] self@.captures[j] == deepen(old_caps, name@)[j],
                forall|j: int| i <= j < old_caps.len() ==> #[trigger] self@.captures[j] == old_caps[j],
                forall|j: int| 0 <= j < i ==> !(eq_ignore_ascii_case(#[trigger] old_caps[j].name, name@) && old_caps[j].depth >= usize::MAX),
            decreases old_caps.len() - i,
        {
            proof {
                assert(self@.captures[i as int] == old_caps[i as int]);
                assert(self.captures@[i as int]@ == self@.captures[i as int]);
            }
            if same_name(self.captures[i].name.as_slice(), name) {
                proof {
                    assert(self@.captures[i as int] == old_caps[i as int]);
                    assert(self.captures@[i as int]@ == self@.captures[i as int]);
                    assert(eq_ignore_ascii_case(old_caps[i as int].name, name@));
                }
                if self.captures[i].depth == usize::MAX {
                    proof {
                        assert(old(self)@.captures[i as int].depth >= usize::MAX);
                    }
                    return Err(HtmlStructureError);
                }
                let ghost before = self.captures@;
                let ghost before_view = self@.captures;
                let mut c = self.captures.remove(i);
                c.depth = c.depth + 1;
                self.captures.insert(i, c);
                proof {
                    assert(self.captures@ =~= before.update(i as int, c));
                    assert(self@.captures =~= before_view.update(i as int, c@));
                    assert(self@.captures[i as int] == deepen(old_caps, name@)[i as int]);
                    assert forall|j: int| 0 <= j < i + 1 implies #[trigger] self@.captures[j] == deepen(old_caps, name@)[j] by {
                        if j < i {
                        }
                    }
                }
            }
            i = i + 1;
        }
        proof {
            assert(self@.captures =~= deepen(old_caps, name@));
            assert(self@.slots =~= old(self)@.slots);
            assert(self@.inert =~= old(self)@.inert);
            let st = self@;
            assert forall|k: int| 0 <= k < st.slots.len() && #[trigger] st.slots[k] is None implies exists|i: int|
                0 <= i < st.captures.len() && #[trigger] st.captures[i].order == k by {
                let w = choose|i: int| 0 <= i < old(self)@.captures.len() && #[trigger] old(self)@.captures[i].order == k;
                assert(st.captures[w].order == k);
            }
        }
        Ok(())
    }

    /// Account for an opening tag.
    pub fn open(&mut self, opening: OpeningToken) -> (r: Result<(), HtmlStructureError>)
        requires
            selection_wf(old(self)@),
        ensures
            r is Ok <==> spec_open(old(self)@, opening.name@, opening.value@, opening.self_closing, opening.end as int) is Some,
            r is Ok ==> spec_open(old(self)@, opening.name@, opening.value@, opening.self_closing, opening.end as int) == Some(final(self)@),
            r is Ok ==> selection_wf(final(self)@),
    {
        let OpeningToken { name, value, self_closing, end } = opening;
        let ghost value_view = value@;
        self.increment_depths(name.as_slice())?;
        let inert_element = is_inert(name.as_slice());
        let hidden = self.inert.len() > 0 || inert_element;
        if inert_element {
            if self_closing {
                return Err(HtmlStructureError);
            }
            let ghost before = self@.inert;
            self.inert.push(name.clone());
            proof {
                assert(self@.inert =~= before.push(name@));
            }
        }
        match value {
            AttributeState::Missing => Ok(()),
            AttributeState::Present(v) => {
                if hidden || self_closing || is_void(name.as_slice()) {
                    return Err(HtmlStructureError);
                }
                if self.slots.len() == usize::MAX {
                    return Err(HtmlStructureError);
                }
                let order = self.slots.len();
                let ghost caps_before = self@.captures;
                let ghost slots_before = self@.slots;
                let capture = Capture { name, content_start: end, depth: 1, value: v, order };
                let ghost cv = capture@;
                self.captures.push(capture);
                self.slots.push(None);
                proof {
                    assert(self@.captures =~= caps_before.push(cv));
                    assert(self@.slots =~= slots_before.push(None));
                    let st = self@;
                    assert forall|k: int| 0 <= k < st.slots.len() && #[trigger] st.slots[k] is None implies exists|i: int|
                        0 <= i < st.captures.len() && #[trigger] st.captures[i].order == k by {
                        if k == order {
                            assert(st.captures[st.captures.len() - 1].order == k);
                        } else {
                            assert(slots_before[k] is None);
                            let w = choose|i: int| 0 <= i < caps_before.len() && #[trigger] caps_before[i].order == k;
                            assert(st.captures[w].order == k);
                        }
                    }
                }
                Ok(())
            },
        }
    }

    /// Account for a closing tag whose `<` stands at `content_end`.
    pub fn close(&mut self, html: &Vec<char>, name: &[char], content_end: usize) -> (r: Result<(), HtmlStructureError>)
        requires
            selection_wf(old(self)@),
        ensures
            r is Ok <==> spec_close(old(self)@, html@, name@, content_end as int) is Some,
            r is Ok ==> spec_close(old(self)@, html@, name@, content_end as int) == Some(final(self)@),
            r is Ok ==> selection_wf(final(self)@),
    {
        let ghost caps0 = self@.captures;
        let ghost slots0 = self@.slots;
        proof {
            assert(caps0 == old(self)@.captures);
            assert(slots0 == old(self)@.slots);
        }
        let mut index: usize = 0;
        while index < self.captures.len()
            invariant
                index <= self@.captures.len(),
                caps0 == old(self)@.captures,
                slots0 == old(self)@.slots,
                self.inert@ == old(self).inert@,
                selection_wf(self@),
                close_from(html@, caps0, slots0, name@, content_end as int, 0) == close_from(
                    html@,
                    self@.captures,
                    self@.slots,
                    name@,
                    content_end as int,
                    index as int,
                ),
            decreases self@.captures.len() - index,
        {
            proof {
                assert(self.captures@[index as int]@ == self@.captures[index as int]);
            }
            if !same_name(self.captures[index].name.as_slice(), name) {
                index = index + 1;
                continue;
            }
            if self.captures[index].depth == 0 {
                return Err(HtmlStructureError);
            }
            let ghost before = self.captures@;
            let ghost before_view = self@.captures;
            let ghost slots_view = self@.slots;
            if self.captures[index].depth - 1 != 0 {
                let mut c = self.captures.remove(index);
                c.depth = c.depth - 1;
                self.captures.insert(index, c);
                proof {
                    assert(self.captures@ =~= before.update(index as int, c));
                    assert(self@.captures =~= before_view.update(index as int, c@));
                    let st = self@;
                    assert forall|k: int| 0 <= k < st.slots.len() && #[trigger] st.slots[k] is None implies exists|i: int|
                        0 <= i < st.captures.len() && #[trigger] st.captures[i].order == k by {
                        let w = choose|i: int| 0 <= i < before_view.len() && #[trigger] before_view[i].order == k;
                        assert(st.captures[w].order == k);
                    }
                }
                index = index + 1;
                continue;
            }
            let capture = self.captures.remove(index);
            proof {
                assert(capture@ == before_view[index as int]);
            }
            if !(capture.content_start <= content_end && content_end <= html.len()) {
                proof {
                    assert(eq_ignore_ascii_case(before_view[index as int].name, name@));
                    assert(before_view[index as int].depth == 1);
                    assert(close_from(html@, before_view, slots_view, name@, content_end as int, index as int) is None);
                    assert(close_from(html@, caps0, slots0, name@, content_end as int, 0) is None);
                    assert(caps0 == old(self)@.captures);
                }
                return Err(HtmlStructureError);
            }
            let content = slice_chars(html, capture.content_start, content_end);
            let order = capture.order;
            let element = AttributedElement { value: capture.value, content };
            let ghost ev = element@;
            self.slots.set(order, Some(element));
            proof {
                assert(self@.captures =~= before_view.remove(index as int));
                assert(self@.slots =~= slots_view.update(order as int, Some(ev)));
                assert(ev == (ElementView { value: before_view[index as int].value, content: html@.subrange(before_view[index as int].content_start, content_end as int) }));
                let st = self@;
                assert forall|k: int| 0 <= k < st.slots.len() && #[trigger] st.slots[k] is None implies exists|i: int|
                    0 <= i < st.captures.len() && #[trigger] st.captures[i].order == k by {
                    assert(k != order);
                    assert(slots_view[k] is None);
                    let w = choose|i: int| 0 <= i < before_view.len() && #[trigger] before_view[i].order == k;
                    assert(w != index);
                    if w < index {
                        assert(st.captures[w].order == k);
                    } else {
                        assert(st.captures[w - 1].order == k);
                    }
                }
                assert forall|i: int| 0 <= i < st.captures.len() implies 0 <= #[trigger] st.captures[i].order < st.slots.len() by {
                    if i < index {
                        assert(st.captures[i] == before_view[i]);
                    } else {
                        assert(st.captures[i] == before_view[i + 1]);
                    }
                }
                assert forall|i: int| 0 <= i < st.captures.len() implies #[trigger] st.captures[i].depth >= 1 by {
                    if i < index {
                        assert(st.captures[i] == before_view[i]);
                    } else {
                        assert(st.captures[i] == before_view[i + 1]);
                    }
                }
            }
        }
        if is_inert(name) {
            let ghost inert_before = self@.inert;
            let expected = match self.inert.pop() {
                Some(e) => e,
                None => {
                    return Err(HtmlStructureError);
                },
            };
            proof {
                assert(expected@ == inert_before.last());
                assert(self@.inert =~= inert_before.drop_last());
            }
            if !same_name(expected.as_slice(), name) {
                return Err(HtmlStructureError);
            }
        }
        Ok(())
    }

    /// The selected elements in opening order, once nothing remains open.
    pub fn finish(self) -> (r: Result<Vec<AttributedElement>, HtmlStructureError>)
        requires
            selection_wf(self@),
        ensures
            r matches Ok(v) ==> spec_finish(self@) == Some(element_views(v@)),
            r is Err ==> spec_finish(self@) is None,
    {
        let ghost st = self@;
        if self.captures.len() > 0 || self.inert.len() > 0 {
            return Err(HtmlStructureError);
        }
        let mut slots = self.slots;
        let mut out: Vec<AttributedElement> = Vec::new();
        let ghost n = slots@.len();
        proof {
            assert forall|k: int| 0 <= k < st.slots.len() implies #[trigger] st.slots[k] is Some by {
                if st.slots[k] is None {
                    let w = choose|i: int| 0 <= i < st.captures.len() && #[trigger] st.captures[i].order == k;
                }
            }
        }
        while slots.len() > 0
            invariant
                n == st.slots.len(),
                out@.len() + slots@.len() == n,
                forall|k: int| 0 <= k < slots@.len() ==> #[trigger] slot_view(slots@[k]) == st.slots[out@.len() + k],
                forall|k: int| 0 <= k < n ==> #[trigger] st.slots[k] is Some,
                forall|k: int| 0 <= k < out@.len() ==> Some(#[trigger] out@[k]@) == st.slots[k],
            decreases slots@.len(),
        {
            let ghost before = slots@;
            let slot = slots.remove(0);
            proof {
                assert(slot_view(slot) == st.slots[out@.len() as int]);
                assert forall|k: int| 0 <= k < slots@.len() implies #[trigger] slot_view(slots@[k]) == st.slots[out@.len() + 1 + k] by {
                    assert(slots@[k] == before[k + 1]);
                }
            }
            match slot {
                Some(element) => {
                    out.push(element);
                },
                None => {
                    proof {
                        assert(st.slots[out@.len() as int] is Some);
                    }
                    return Err(HtmlStructureError);
                },
            }
        }
        proof {
            assert(element_views(out@) =~= Seq::new(st.slots.len(), |k: int| st.slots[k]->0));
        }
        Ok(out)
    }
}

/// The elements of `html` that carry the attribute `wanted`, in document order of their
/// opening tags, each with the attribute's value and its raw content.
pub fn elements_with_attribute(html: &Vec<char>, wanted: &[char]) -> (r: Result<Vec<AttributedElement>, HtmlStructureError>)
    ensures
        r matches Ok(v) ==> spec_elements_with_attribute(html@, wanted@) == Some(element_views(v@)),
        r is Err ==> spec_elements_with_attribute(html@, wanted@) is None,
{
    let mut selection = Selection::new();
    let mut cursor: usize = 0;
    loop
        invariant
            selection_wf(selection@),
            cursor <= html@.len(),
            spec_elements_with_attribute(html@, wanted@) == select_from(html@, wanted@, cursor as int, selection@),
        decreases html@.len() - cursor,
    {
        let open_at = match next_markup(html, cursor) {
            Some(p) => p,
            None => {
                return selection.finish();
            },
        };
        let token = parse_token(html, open_at, wanted)?;
        proof {
            lemma_token_end(html@, open_at as int, wanted@);
            crate::text::lemma_run_to_bound(html@.skip(cursor as int), '<');
        }
        cursor = token.end();
        match token {
            Token::Ignored { .. } => {},
            Token::Opening(opening) => {
                if is_raw_text(opening.name.as_slice()) {
                    if opening.self_closing {
                        return Err(HtmlStructureError);
                    }
                    proof {
                        lemma_raw_text_end(html@, opening.end as int, opening.name@);
                    }
                    cursor = raw_text_end(html, opening.end, &opening.name)?;
                } else {
                    selection.open(opening)?;
                }
            },
            Token::Closing(closing) => {
                selection.close(html, closing.name.as_slice(), closing.start)?;
            },
        }
    }
}

} // verus!
