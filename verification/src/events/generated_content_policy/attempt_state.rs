//! Sequential read and inspection lifecycle tracking for generated content.

use vstd::prelude::*;


use super::super::source_policy::info_url;
use super::super::stream::{
    opt_text, ConversationId, InfoView, StepState, StepUpdate, StepView, ToolInfo, ToolName,
};
use super::provenance::{
    inspection_permitted, path_parts, path_view, GeneratedContentRoot, PathView,
};
use crate::http_url::{http_url_text, HttpUrl};
use crate::text::{chars_equal, views};

verus! {

/// The position of the entry keyed `k`.
pub open spec fn key_index<V>(s: Seq<(u64, V)>, k: u64) -> Option<int>
    decreases s.len(),
{
    if s.len() == 0 {
        None
    } else if s[0].0 == k {
        Some(0)
    } else {
        match key_index(s.drop_first(), k) {
            Some(i) => Some(i + 1),
            None => None,
        }
    }
}

/// The value keyed `k`.
pub open spec fn lookup<V>(s: Seq<(u64, V)>, k: u64) -> Option<V> {
    match key_index(s, k) {
        Some(i) => Some(s[i].1),
        None => None,
    }
}

/// The entries with `k` keyed to `v`, replacing any earlier value.
pub open spec fn upsert<V>(s: Seq<(u64, V)>, k: u64, v: V) -> Seq<(u64, V)> {
    match key_index(s, k) {
        Some(i) => s.update(i, (k, v)),
        None => s.push((k, v)),
    }
}

/// The entries without the one keyed `k`.
pub open spec fn remove_key<V>(s: Seq<(u64, V)>, k: u64) -> Seq<(u64, V)> {
    match key_index(s, k) {
        Some(i) => s.remove(i),
        None => s,
    }
}

pub proof fn lemma_key_index<V>(s: Seq<(u64, V)>, k: u64)
    ensures
        key_index(s, k) matches Some(i) ==> 0 <= i < s.len() && s[i].0 == k,
        key_index(s, k) is None ==> forall|j: int| 0 <= j < s.len() ==> s[j].0 != k,
    decreases s.len(),
{
    if s.len() > 0 && s[0].0 != k {
        lemma_key_index(s.drop_first(), k);
        assert forall|j: int| 1 <= j < s.len() implies s[j].0 == s.drop_first()[j - 1].0 by {}
    }
}

/// A direct read in flight.
pub struct ReadAttemptView {
    pub conversation_id: Seq<char>,
    pub url: Seq<char>,
}

/// An inspection of generated content in flight.
pub struct InspectionView {
    pub conversation_id: Seq<char>,
    pub producer: u64,
    pub tool: ToolName,
    pub path: PathView,
    pub query: Option<Seq<char>>,
}

/// Reads in flight by step, completed reads by conversation and step, and inspections in
/// flight by step.
pub struct StateView {
    pub reads: Seq<(u64, ReadAttemptView)>,
    pub completed: Seq<(Seq<char>, u64)>,
    pub inspections: Seq<(u64, InspectionView)>,
}

/// The read a tool step describes: it needs a step, a conversation and an HTTP(S) URL.
pub open spec fn read_attempt_of(s: StepView, info: InfoView) -> Option<(u64, ReadAttemptView)> {
    match (s.step_index, s.conversation_id, info_url(info)) {
        (Some(i), Some(c), Some(u)) => if http_url_text(u) {
            Some((i, ReadAttemptView { conversation_id: c, url: u }))
        } else {
            None
        },
        _ => None,
    }
}

/// A read step: a started read is recorded; a successful completion closes it and, when it
/// matches what started, records the read as completed.
pub open spec fn track_read_spec(st: StateView, s: StepView, info: InfoView) -> StateView {
    match read_attempt_of(s, info) {
        None => st,
        Some((i, a)) => if s.state == Some(StepState::Active) {
            StateView { reads: upsert(st.reads, i, a), ..st }
        } else if s.state == Some(StepState::Done) && !info.error {
            let removed = lookup(st.reads, i);
            let closed = StateView { reads: remove_key(st.reads, i), ..st };
            if removed == Some(a) {
                StateView { completed: st.completed.push((a.conversation_id, i)), ..closed }
            } else {
                closed
            }
        } else {
            st
        },
    }
}

/// The first completed read of the current conversation, before `index`, whose artifact the
/// tool may inspect at `path`.
pub open spec fn first_producer(
    completed: Seq<(Seq<char>, u64)>,
    current: Seq<char>,
    index: u64,
    root: Seq<Seq<char>>,
    tool: ToolName,
    path: PathView,
) -> Option<u64>
    decreases completed.len(),
{
    if completed.len() == 0 {
        None
    } else if completed[0].0 == current && completed[0].1 < index && inspection_permitted(
        root,
        tool,
        current,
        completed[0].1,
        path,
    ) {
        Some(completed[0].1)
    } else {
        first_producer(completed.drop_first(), current, index, root, tool, path)
    }
}

/// The inspection a view or grep step describes, when it names a step of the current
/// conversation and a path to an artifact an earlier completed read produced.
pub open spec fn inspection_of(st: StateView, s: StepView, info: InfoView, current: Seq<char>, root: Seq<Seq<char>>) -> Option<(u64, InspectionView)> {
    match (s.step_index, s.conversation_id, info.parameters) {
        (Some(index), Some(c), Some(p)) => if c != current {
            None
        } else {
            let path = match info.name {
                ToolName::ViewFile => p.absolute_path,
                ToolName::GrepSearch => p.search_path,
                _ => None,
            };
            match path {
                None => None,
                Some(text) => match first_producer(st.completed, current, index, root, info.name, path_view(text)) {
                    None => None,
                    Some(producer) => Some((index, InspectionView {
                        conversation_id: c,
                        producer,
                        tool: info.name,
                        path: path_view(text),
                        query: if info.name == ToolName::GrepSearch { p.query } else { None },
                    })),
                },
            }
        },
        _ => None,
    }
}

/// An inspection step: a start must not reuse a step in flight; a successful completion must
/// close exactly what started; anything else is refused.
pub open spec fn track_inspection_spec(st: StateView, s: StepView, info: InfoView, current: Seq<char>, root: Seq<Seq<char>>) -> (bool, StateView) {
    match inspection_of(st, s, info, current, root) {
        None => (false, st),
        Some((i, a)) => if s.state == Some(StepState::Active) {
            (lookup(st.inspections, i) is None, StateView { inspections: upsert(st.inspections, i, a), ..st })
        } else if s.state == Some(StepState::Done) && !info.error {
            (lookup(st.inspections, i) == Some(a), StateView { inspections: remove_key(st.inspections, i), ..st })
        } else {
            (false, st)
        },
    }
}

/// A direct read in flight.
#[derive(Debug)]
pub struct ReadAttempt {
    pub conversation_id: ConversationId,
    pub url: HttpUrl,
}

impl View for ReadAttempt {
    type V = ReadAttemptView;

    open spec fn view(&self) -> ReadAttemptView {
        ReadAttemptView { conversation_id: self.conversation_id@, url: self.url@ }
    }
}

/// An inspection of generated content in flight.
#[derive(Debug)]
pub struct InspectionAttempt {
    pub conversation_id: ConversationId,
    pub producer: u64,
    pub tool: ToolName,
    pub absolute: bool,
    pub path: Vec<Vec<char>>,
    pub query: Option<String>,
}

impl View for InspectionAttempt {
    type V = InspectionView;

    open spec fn view(&self) -> InspectionView {
        InspectionView {
            conversation_id: self.conversation_id@,
            producer: self.producer,
            tool: self.tool,
            path: PathView { absolute: self.absolute, parts: views(self.path@) },
            query: opt_text(self.query),
        }
    }
}

/// The views of keyed reads.
pub open spec fn read_views(v: Seq<(u64, ReadAttempt)>) -> Seq<(u64, ReadAttemptView)> {
    Seq::new(v.len(), |i: int| (v[i].0, v[i].1@))
}

/// The views of keyed inspections.
pub open spec fn inspection_views(v: Seq<(u64, InspectionAttempt)>) -> Seq<(u64, InspectionView)> {
    Seq::new(v.len(), |i: int| (v[i].0, v[i].1@))
}

/// The views of completed reads.
pub open spec fn completed_views(v: Seq<(ConversationId, u64)>) -> Seq<(Seq<char>, u64)> {
    Seq::new(v.len(), |i: int| (v[i].0@, v[i].1))
}

/// The conversation a view or grep is judged against and where generated content lives.
pub struct InspectionContext<'a> {
    pub current: &'a ConversationId,
    pub root: &'a GeneratedContentRoot,
}

impl<'a> InspectionContext<'a> {
    /// A context for the current conversation and generated-content root.
    pub fn new(current: &'a ConversationId, root: &'a GeneratedContentRoot) -> (c: InspectionContext<'a>)
        ensures
            c.current@ == current@,
            c.root@ == root@,
    {
        InspectionContext { current, root }
    }
}

/// Read and inspection lifecycles seen so far.
#[derive(Debug)]
pub struct AttemptState {
    active_reads: Vec<(u64, ReadAttempt)>,
    completed_reads: Vec<(ConversationId, u64)>,
    active_inspections: Vec<(u64, InspectionAttempt)>,
}

impl View for AttemptState {
    type V = StateView;

    closed spec fn view(&self) -> StateView {
        StateView {
            reads: read_views(self.active_reads@),
            completed: completed_views(self.completed_reads@),
            inspections: inspection_views(self.active_inspections@),
        }
    }
}

/// Whether two optional texts are the same.
fn same_query(a: &Option<String>, b: &Option<String>) -> (r: bool)
    ensures
        r == (opt_text(*a) == opt_text(*b)),
{
    super::super::stream::same_opt_text(a, b)
}

/// Whether two part lists are the same.
fn same_path(a: &Vec<Vec<char>>, b: &Vec<Vec<char>>) -> (r: bool)
    ensures
        r == (views(a@) == views(b@)),
{
    if a.len() != b.len() {
        proof {
            assert(views(a@).len() != views(b@).len());
        }
        return false;
    }
    let mut i: usize = 0;
    while i < a.len()
        invariant
            a@.len() == b@.len(),
            i <= a@.len(),
            forall|k: int| 0 <= k < i ==> a@[k]@ == b@[k]@,
        decreases a@.len() - i,
    {
        if !chars_equal(a[i].as_slice(), b[i].as_slice()) {
            proof {
                assert(views(a@)[i as int] != views(b@)[i as int]);
            }
            return false;
        }
        i = i + 1;
    }
    proof {
        assert(views(a@) =~= views(b@));
    }
    true
}

/// Whether two inspections are the same.
fn same_inspection(a: &InspectionAttempt, b: &InspectionAttempt) -> (r: bool)
    ensures
        r == (a@ == b@),
{
    a.conversation_id.same_id(&b.conversation_id) && a.producer == b.producer && a.tool == b.tool
        && a.absolute == b.absolute && same_path(&a.path, &b.path) && same_query(&a.query, &b.query)
}

/// Whether two reads are the same.
fn same_read(a: &ReadAttempt, b: &ReadAttempt) -> (r: bool)
    ensures
        r == (a@ == b@),
{
    a.conversation_id.same_id(&b.conversation_id) && a.url.same_url(&b.url)
}

/// The read a tool step describes.
fn read_attempt(step: &StepUpdate, info: &ToolInfo) -> (r: Option<(u64, ReadAttempt)>)
    ensures
        match r {
            Some((i, a)) => read_attempt_of(step@, info@) == Some((i, a@)),
            None => read_attempt_of(step@, info@) is None,
        },
{
    let index = match step.step_index {
        Some(i) => i,
        None => {
            return None;
        },
    };
    let conversation_id = match &step.conversation_id {
        Some(c) => c.clone(),
        None => {
            return None;
        },
    };
    let url = match &info.parameters {
        Some(p) => match &p.url {
            Some(u) => match HttpUrl::parse(u.as_str()) {
                Ok(url) => url,
                Err(_) => {
                    return None;
                },
            },
            None => {
                return None;
            },
        },
        None => {
            return None;
        },
    };
    Some((index, ReadAttempt { conversation_id, url }))
}

impl AttemptState {
    /// No reads and no inspections yet.
    pub fn new() -> (s: AttemptState)
        ensures
            s@ == (StateView { reads: Seq::empty(), completed: Seq::empty(), inspections: Seq::empty() }),
    {
        let s = AttemptState { active_reads: Vec::new(), completed_reads: Vec::new(), active_inspections: Vec::new() };
        proof {
            assert(s@.reads =~= Seq::<(u64, ReadAttemptView)>::empty());
            assert(s@.completed =~= Seq::<(Seq<char>, u64)>::empty());
            assert(s@.inspections =~= Seq::<(u64, InspectionView)>::empty());
        }
        s
    }

    /// The position of the read in flight at step `k`.
    fn find_read(&self, k: u64) -> (r: Option<usize>)
        ensures
            match r {
                Some(i) => key_index(self@.reads, k) == Some(i as int) && i < self.active_reads@.len(),
                None => key_index(self@.reads, k) is None,
            },
    {
        let ghost rv = self@.reads;
        let mut i: usize = 0;
        proof {
            assert(rv.skip(0) =~= rv);
        }
        while i < self.active_reads.len()
            invariant
                rv == self@.reads,
                rv == read_views(self.active_reads@),
                i <= self.active_reads@.len(),
                key_index(rv, k) == match key_index(rv.skip(i as int), k) {
                    Some(j) => Some(j + i),
                    None => None::<int>,
                },
            decreases self.active_reads@.len() - i,
        {
            proof {
                assert(rv.skip(i as int)[0] == rv[i as int]);
                assert(rv.skip(i as int).drop_first() =~= rv.skip(i + 1));
            }
            if self.active_reads[i].0 == k {
                return Some(i);
            }
            i = i + 1;
        }
        proof {
            assert(rv.skip(i as int) =~= Seq::<(u64, ReadAttemptView)>::empty());
        }
        None
    }

    /// The position of the inspection in flight at step `k`.
    fn find_inspection(&self, k: u64) -> (r: Option<usize>)
        ensures
            match r {
                Some(i) => key_index(self@.inspections, k) == Some(i as int) && i < self.active_inspections@.len(),
                None => key_index(self@.inspections, k) is None,
            },
    {
        let ghost rv = self@.inspections;
        let mut i: usize = 0;
        proof {
            assert(rv.skip(0) =~= rv);
        }
        while i < self.active_inspections.len()
            invariant
                rv == self@.inspections,
                rv == inspection_views(self.active_inspections@),
                i <= self.active_inspections@.len(),
                key_index(rv, k) == match key_index(rv.skip(i as int), k) {
                    Some(j) => Some(j + i),
                    None => None::<int>,
                },
            decreases self.active_inspections@.len() - i,
        {
            proof {
                assert(rv.skip(i as int)[0] == rv[i as int]);
                assert(rv.skip(i as int).drop_first() =~= rv.skip(i + 1));
            }
            if self.active_inspections[i].0 == k {
                return Some(i);
            }
            i = i + 1;
        }
        proof {
            assert(rv.skip(i as int) =~= Seq::<(u64, InspectionView)>::empty());
        }
        None
    }

    /// Track one read step.
    pub fn track_read(&mut self, step: &StepUpdate, info: &ToolInfo)
        ensures
            final(self)@ == track_read_spec(old(self)@, step@, info@),
    {
        let (index, attempt) = match read_attempt(step, info) {
            Some(p) => p,
            None => {
                return;
            },
        };
        let ghost before = self@;
        if step.state == Some(StepState::Active) {
            match self.find_read(index) {
                Some(i) => {
                    self.active_reads.set(i, (index, attempt));
                    proof {
                        assert(self@.reads =~= upsert(before.reads, index, attempt@));
                    }
                },
                None => {
                    self.active_reads.push((index, attempt));
                    proof {
                        assert(self@.reads =~= upsert(before.reads, index, attempt@));
                    }
                },
            }
            proof {
                assert(self@.completed =~= before.completed);
                assert(self@.inspections =~= before.inspections);
            }
        } else if step.state == Some(StepState::Done) && !info.error {
            let removed = match self.find_read(index) {
                Some(i) => {
                    let (_, r) = self.active_reads.remove(i);
                    proof {
                        assert(self@.reads =~= remove_key(before.reads, index));
                        assert(lookup(before.reads, index) == Some(r@));
                    }
                    Some(r)
                },
                None => {
                    proof {
                        assert(self@.reads =~= remove_key(before.reads, index));
                    }
                    None
                },
            };
            let matched = match &removed {
                Some(r) => same_read(r, &attempt),
                None => false,
            };
            if matched {
                let ghost mid = completed_views(self.completed_reads@);
                self.completed_reads.push((attempt.conversation_id, index));
                proof {
                    assert(completed_views(self.completed_reads@) =~= mid.push((attempt@.conversation_id, index)));
                }
            }
            proof {
                assert(self@.inspections =~= before.inspections);
                if !matched {
                    assert(self@.completed =~= before.completed);
                }
            }
        }
    }

    /// The first completed read whose artifact the inspection may see.
    fn producer_for(&self, current: &ConversationId, index: u64, root: &GeneratedContentRoot, tool: ToolName, absolute: bool, path: &Vec<Vec<char>>) -> (r: Option<u64>)
        ensures
            r == first_producer(self@.completed, current@, index, root@, tool, PathView { absolute, parts: views(path@) }),
    {
        let ghost cv = self@.completed;
        let ghost pv = PathView { absolute, parts: views(path@) };
        let mut i: usize = 0;
        proof {
            assert(cv.skip(0) =~= cv);
        }
        while i < self.completed_reads.len()
            invariant
                cv == self@.completed,
                cv == completed_views(self.completed_reads@),
                pv == (PathView { absolute, parts: views(path@) }),
                i <= self.completed_reads@.len(),
                first_producer(cv, current@, index, root@, tool, pv) == first_producer(cv.skip(i as int), current@, index, root@, tool, pv),
            decreases self.completed_reads@.len() - i,
        {
            proof {
                assert(cv.skip(i as int)[0] == cv[i as int]);
                assert(cv.skip(i as int).drop_first() =~= cv.skip(i + 1));
            }
            let owner = &self.completed_reads[i].0;
            let producer = self.completed_reads[i].1;
            if owner.same_id(current) && producer < index && root.permits_inspection(tool, current, producer, absolute, path) {
                return Some(producer);
            }
            i = i + 1;
        }
        proof {
            assert(cv.skip(i as int) =~= Seq::<(Seq<char>, u64)>::empty());
        }
        None
    }

    /// The inspection a view or grep step describes.
    pub fn inspection_attempt(&self, step: &StepUpdate, info: &ToolInfo, context: &InspectionContext) -> (r: Option<(u64, InspectionAttempt)>)
        ensures
            match r {
                Some((i, a)) => inspection_of(self@, step@, info@, context.current@, context.root@) == Some((i, a@)),
                None => inspection_of(self@, step@, info@, context.current@, context.root@) is None,
            },
    {
        let index = match step.step_index {
            Some(i) => i,
            None => {
                return None;
            },
        };
        let conversation_id = match &step.conversation_id {
            Some(c) => c.clone(),
            None => {
                return None;
            },
        };
        if !conversation_id.same_id(context.current) {
            return None;
        }
        let parameters = match &info.parameters {
            Some(p) => p,
            None => {
                return None;
            },
        };
        let text = match info.name {
            ToolName::ViewFile => match &parameters.absolute_path {
                Some(t) => t,
                None => {
                    return None;
                },
            },
            ToolName::GrepSearch => match &parameters.search_path {
                Some(t) => t,
                None => {
                    return None;
                },
            },
            ToolName::SearchWeb | ToolName::ReadUrlContent | ToolName::Other => {
                return None;
            },
        };
        let (absolute, path) = path_parts(text.as_str());
        let producer = match self.producer_for(context.current, index, context.root, info.name, absolute, &path) {
            Some(p) => p,
            None => {
                return None;
            },
        };
        let query = if info.name == ToolName::GrepSearch {
            match &parameters.query {
                Some(q) => Some(q.clone()),
                None => None,
            }
        } else {
            None
        };
        Some((index, InspectionAttempt { conversation_id, producer, tool: info.name, absolute, path, query }))
    }

    /// Track one view or grep step; false when it breaks the inspection lifecycle.
    pub fn track_inspection(&mut self, step: &StepUpdate, info: &ToolInfo, context: &InspectionContext) -> (r: bool)
        ensures
            (r, final(self)@) == track_inspection_spec(old(self)@, step@, info@, context.current@, context.root@),
    {
        let (index, attempt) = match self.inspection_attempt(step, info, context) {
            Some(p) => p,
            None => {
                return false;
            },
        };
        let ghost before = self@;
        if step.state == Some(StepState::Active) {
            let fresh = match self.find_inspection(index) {
                Some(i) => {
                    self.active_inspections.set(i, (index, attempt));
                    proof {
                        assert(self@.inspections =~= upsert(before.inspections, index, attempt@));
                    }
                    false
                },
                None => {
                    self.active_inspections.push((index, attempt));
                    proof {
                        assert(self@.inspections =~= upsert(before.inspections, index, attempt@));
                    }
                    true
                },
            };
            proof {
                assert(self@.reads =~= before.reads);
                assert(self@.completed =~= before.completed);
            }
            fresh
        } else if step.state == Some(StepState::Done) && !info.error {
            let matched = match self.find_inspection(index) {
                Some(i) => {
                    let (_, r) = self.active_inspections.remove(i);
                    proof {
                        assert(self@.inspections =~= remove_key(before.inspections, index));
                        assert(lookup(before.inspections, index) == Some(r@));
                    }
                    same_inspection(&r, &attempt)
                },
                None => {
                    proof {
                        assert(self@.inspections =~= remove_key(before.inspections, index));
                    }
                    false
                },
            };
            proof {
                assert(self@.reads =~= before.reads);
                assert(self@.completed =~= before.completed);
            }
            matched
        } else {
            false
        }
    }

    /// Whether every started read and inspection closed.
    pub fn has_balanced_attempts(&self) -> (r: bool)
        ensures
            r == (self@.reads.len() == 0 && self@.inspections.len() == 0),
    {
        self.active_reads.len() == 0 && self.active_inspections.len() == 0
    }
}

} // verus!
