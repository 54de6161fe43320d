//! Best-effort grounding projection for latency-sensitive standard Search: resolved sources
//! replace their transports, dead ones leave the results, and a restricted run's transports
//! must land inside the restriction.

use vstd::prelude::*;
use crate::error::AgyError;
use crate::http_url::{origin, url_kind, HttpUrl, SourceUrlKind};
use crate::redirect::pinning::host_of;
use crate::text::{chars_of, equals_str, slice_chars, starts_with, starts_with_chars};
use crate::response_models::{source_views, DocumentView, ResponseDocument, SourceView, WebSource};
use crate::response_urls::swapped_doc;
use crate::source_restriction::{restriction_allows, RestrictionView, SourceRestriction};

verus! {

/// The sources of `s` whose URL is not `url`, in order.
pub open spec fn drop_results(s: Seq<SourceView>, url: Seq<char>) -> Seq<SourceView>
    decreases s.len(),
{
    if s.len() == 0 {
        s
    } else if s[0].url == url {
        drop_results(s.drop_first(), url)
    } else {
        seq![s[0]] + drop_results(s.drop_first(), url)
    }
}

/// A search document without the results on `url`; other documents are unchanged.
pub open spec fn remove_result(d: DocumentView, url: Seq<char>) -> DocumentView {
    match d {
        DocumentView::Search { audit, results } => DocumentView::Search { audit, results: drop_results(results, url) },
        _ => d,
    }
}

/// Each transport of a restricted run replaced by its resolved target, in order.
pub open spec fn apply_restricted(d: DocumentView, pairs: Seq<(Seq<char>, Seq<char>)>) -> DocumentView
    decreases pairs.len(),
{
    if pairs.len() == 0 {
        d
    } else {
        swapped_doc(apply_restricted(d, pairs.drop_last()), pairs.last().0, pairs.last().1)
    }
}

/// Each probed source replaced by its target where it was reachable, and its results removed
/// where it was dead, in order.
pub open spec fn apply_outcomes(d: DocumentView, outcomes: Seq<(Seq<char>, Option<Seq<char>>)>) -> DocumentView
    decreases outcomes.len(),
{
    if outcomes.len() == 0 {
        d
    } else {
        let before = apply_outcomes(d, outcomes.drop_last());
        match outcomes.last().1 {
            Some(target) => swapped_doc(before, outcomes.last().0, target),
            None => remove_result(before, outcomes.last().0),
        }
    }
}

/// The projected document: restricted transports first, then the probed sources.
pub open spec fn projected(
    d: DocumentView,
    pairs: Seq<(Seq<char>, Seq<char>)>,
    outcomes: Seq<(Seq<char>, Option<Seq<char>>)>,
) -> DocumentView {
    apply_outcomes(apply_restricted(d, pairs), outcomes)
}

/// A resolved target is allowed: there is no restriction, or it lies inside.
pub open spec fn target_inside(restriction: Option<RestrictionView>, target: Seq<char>) -> bool {
    match restriction {
        None => true,
        Some(r) => restriction_allows(r, target),
    }
}

/// Every restricted transport resolved inside the restriction.
pub open spec fn pairs_inside(restriction: Option<RestrictionView>, pairs: Seq<(Seq<char>, Seq<char>)>) -> bool {
    forall|i: int| 0 <= i < pairs.len() ==> target_inside(restriction, #[trigger] pairs[i].1)
}

/// The text of resolved pairs.
pub open spec fn pair_views(v: Seq<(HttpUrl, HttpUrl)>) -> Seq<(Seq<char>, Seq<char>)> {
    Seq::new(v.len(), |i: int| (v[i].0@, v[i].1@))
}

/// The text of probe outcomes.
pub open spec fn outcome_views(v: Seq<(HttpUrl, Option<HttpUrl>)>) -> Seq<(Seq<char>, Option<Seq<char>>)> {
    Seq::new(v.len(), |i: int| (v[i].0@, match v[i].1 { Some(t) => Some(t@), None => None }))
}

/// The view of an optional restriction.
pub open spec fn restriction_option(r: Option<&SourceRestriction>) -> Option<RestrictionView> {
    match r {
        Some(r) => Some(r@),
        None => None,
    }
}

/// A search document has no results.
pub open spec fn no_results(d: DocumentView) -> bool {
    d matches DocumentView::Search { results, .. } && results.len() == 0
}

/// Remove the results on `url`.
fn drop_url_results(v: &mut Vec<WebSource>, url: &HttpUrl)
    ensures
        source_views(final(v)@) == drop_results(source_views(old(v)@), url@),
{
    let ghost orig = source_views(v@);
    let mut i: usize = 0;
    proof {
        assert(source_views(v@).skip(0) =~= orig);
        assert(source_views(v@).take(0) + orig =~= orig);
    }
    while i < v.len()
        invariant
            i <= v@.len(),
            drop_results(orig, url@) == source_views(v@).take(i as int) + drop_results(source_views(v@).skip(i as int), url@),
        decreases v@.len() - i,
    {
        let ghost sv = source_views(v@);
        proof {
            assert(sv.skip(i as int).drop_first() =~= sv.skip(i + 1));
            assert(sv.skip(i as int)[0] == sv[i as int]);
            assert(sv[i as int].url == v@[i as int].url@);
        }
        if v[i].url.same_url(url) {
            v.remove(i);
            proof {
                let nv = source_views(v@);
                assert(nv.take(i as int) =~= sv.take(i as int));
                assert(nv.skip(i as int) =~= sv.skip(i + 1));
            }
        } else {
            proof {
                let nv = source_views(v@);
                assert(nv.take(i + 1) =~= sv.take(i as int) + seq![sv[i as int]]);
                assert(sv.take(i as int) + (seq![sv[i as int]] + drop_results(sv.skip(i + 1), url@))
                    =~= sv.take(i + 1) + drop_results(sv.skip(i + 1), url@));
            }
            i = i + 1;
        }
    }
    proof {
        assert(source_views(v@).skip(i as int) =~= Seq::<SourceView>::empty());
        assert(source_views(v@).take(i as int) =~= source_views(v@));
        assert(source_views(v@) + Seq::<SourceView>::empty() =~= source_views(v@));
    }
}

impl ResponseDocument {
    /// Remove a search document's results on `url`.
    pub fn remove_search_url(&mut self, url: &HttpUrl)
        ensures
            final(self)@ == remove_result(old(self)@, url@),
    {
        match self {
            ResponseDocument::Search(value) => drop_url_results(&mut value.results, url),
            _ => {},
        }
    }
}

/// A Google web-search host.
pub open spec fn google_host(h: Seq<char>) -> bool {
    h == "google.com"@ || h == "www.google.com"@ || h == "google.co.kr"@ || h == "www.google.co.kr"@
}

/// What follows a URL's origin: its path, query and fragment.
pub open spec fn after_origin(u: Seq<char>) -> Seq<char> {
    u.skip(origin(u).len() as int)
}

/// A URL that is no evidence source: a Google search-result page, or a bare site root.
pub open spec fn non_source_url(u: Seq<char>) -> bool {
    ||| (host_of(u) matches Some(h) && google_host(h) && starts_with(after_origin(u), "/search"@))
    ||| after_origin(u).len() == 0
    ||| after_origin(u) == "/"@
}

/// The sources of `s` whose URL is an evidence source, in order.
pub open spec fn keep_sources(s: Seq<SourceView>) -> Seq<SourceView>
    decreases s.len(),
{
    if s.len() == 0 {
        s
    } else if non_source_url(s[0].url) {
        keep_sources(s.drop_first())
    } else {
        seq![s[0]] + keep_sources(s.drop_first())
    }
}

/// A search document without its non-source results; other documents are unchanged.
pub open spec fn remove_non_sources(d: DocumentView) -> DocumentView {
    match d {
        DocumentView::Search { audit, results } => DocumentView::Search { audit, results: keep_sources(results) },
        _ => d,
    }
}

proof fn lemma_drop_results_gone(s: Seq<SourceView>, url: Seq<char>)
    ensures
        forall|i: int| 0 <= i < drop_results(s, url).len() ==> #[trigger] drop_results(s, url)[i].url != url,
    decreases s.len(),
{
    if s.len() > 0 {
        lemma_drop_results_gone(s.drop_first(), url);
        let rest = drop_results(s.drop_first(), url);
        if s[0].url != url {
            assert forall|i: int| 0 <= i < drop_results(s, url).len() implies #[trigger] drop_results(s, url)[i].url != url by {
                if i > 0 {
                    assert(drop_results(s, url)[i] == rest[i - 1]);
                }
            }
        }
    }
}

proof fn lemma_keep_sources_only(s: Seq<SourceView>)
    ensures
        forall|i: int| 0 <= i < keep_sources(s).len() ==> !non_source_url(#[trigger] keep_sources(s)[i].url),
    decreases s.len(),
{
    if s.len() > 0 {
        lemma_keep_sources_only(s.drop_first());
        let rest = keep_sources(s.drop_first());
        if !non_source_url(s[0].url) {
            assert forall|i: int| 0 <= i < keep_sources(s).len() implies !non_source_url(#[trigger] keep_sources(s)[i].url) by {
                if i > 0 {
                    assert(keep_sources(s)[i] == rest[i - 1]);
                }
            }
        }
    }
}

/// After a dead source is removed, no result of the answer is on its URL; after the non-source
/// results are removed, every result left is an evidence source.
pub proof fn law_removed_results_are_gone(d: DocumentView, url: Seq<char>)
    ensures
        remove_result(d, url) matches DocumentView::Search { results, .. } ==> forall|i: int|
            0 <= i < results.len() ==> #[trigger] results[i].url != url,
        remove_non_sources(d) matches DocumentView::Search { results, .. } ==> forall|i: int|
            0 <= i < results.len() ==> !non_source_url(#[trigger] results[i].url),
{
    if let DocumentView::Search { results, .. } = d {
        lemma_drop_results_gone(results, url);
        lemma_keep_sources_only(results);
    }
}

/// Whether a URL is no evidence source.
pub fn is_non_source(url: &HttpUrl) -> (r: bool)
    ensures
        r == non_source_url(url@),
{
    let chars = chars_of(url.as_str());
    let end = HttpUrl::origin_len_of(&chars);
    proof {
        assert(origin(url@).len() == end) by {
            assert(origin(url@) == url@.take(end as int));
        }
    }
    let rest = slice_chars(&chars, end, chars.len());
    proof {
        assert(rest@ =~= after_origin(url@));
        reveal_strlit("/");
        reveal_strlit("/search");
    }
    if rest.len() == 0 || equals_str(rest.as_slice(), "/") {
        return true;
    }
    match url.https_host() {
        Some(host) => {
            let h = chars_of(host.as_str());
            (equals_str(h.as_slice(), "google.com") || equals_str(h.as_slice(), "www.google.com")
                || equals_str(h.as_slice(), "google.co.kr") || equals_str(h.as_slice(), "www.google.co.kr"))
                && starts_with_chars(rest.as_slice(), chars_of("/search").as_slice())
        },
        None => false,
    }
}

/// Remove the non-source results.
fn drop_non_source_results(v: &mut Vec<WebSource>)
    ensures
        source_views(final(v)@) == keep_sources(source_views(old(v)@)),
{
    let ghost orig = source_views(v@);
    let mut i: usize = 0;
    proof {
        assert(source_views(v@).skip(0) =~= orig);
        assert(source_views(v@).take(0) + orig =~= orig);
    }
    while i < v.len()
        invariant
            i <= v@.len(),
            keep_sources(orig) == source_views(v@).take(i as int) + keep_sources(source_views(v@).skip(i as int)),
        decreases v@.len() - i,
    {
        let ghost sv = source_views(v@);
        proof {
            assert(sv.skip(i as int).drop_first() =~= sv.skip(i + 1));
            assert(sv.skip(i as int)[0] == sv[i as int]);
            assert(sv[i as int].url == v@[i as int].url@);
        }
        if is_non_source(&v[i].url) {
            v.remove(i);
            proof {
                let nv = source_views(v@);
                assert(nv.take(i as int) =~= sv.take(i as int));
                assert(nv.skip(i as int) =~= sv.skip(i + 1));
            }
        } else {
            proof {
                let nv = source_views(v@);
                assert(nv.take(i + 1) =~= sv.take(i as int) + seq![sv[i as int]]);
                assert(sv.take(i as int) + (seq![sv[i as int]] + keep_sources(sv.skip(i + 1)))
                    =~= sv.take(i + 1) + keep_sources(sv.skip(i + 1)));
            }
            i = i + 1;
        }
    }
    proof {
        assert(source_views(v@).skip(i as int) =~= Seq::<SourceView>::empty());
        assert(source_views(v@).take(i as int) =~= source_views(v@));
        assert(source_views(v@) + Seq::<SourceView>::empty() =~= source_views(v@));
    }
}

impl ResponseDocument {
    /// Remove a search document's results that are no evidence source.
    pub fn remove_non_source_results(&mut self)
        ensures
            final(self)@ == remove_non_sources(old(self)@),
    {
        match self {
            ResponseDocument::Search(value) => drop_non_source_results(&mut value.results),
            _ => {},
        }
    }
}

/// The projection, with the non-source results removed last where `drop_non_sources` asks.
pub open spec fn projected_step(
    d: DocumentView,
    pairs: Seq<(Seq<char>, Seq<char>)>,
    outcomes: Seq<(Seq<char>, Option<Seq<char>>)>,
    drop_non_sources: bool,
) -> DocumentView {
    if drop_non_sources {
        remove_non_sources(projected(d, pairs, outcomes))
    } else {
        projected(d, pairs, outcomes)
    }
}

/// Project a standard search's answer onto what its grounding resolved to. `restricted` holds the
/// transports a restricted run read with their targets; `outcomes` holds each probed source with
/// its target, or nothing where it was dead; then, where `drop_non_sources` asks, the results
/// that are no evidence source leave. The answer is whether no result is left.
pub fn project_standard_search(
    doc: &mut ResponseDocument,
    restriction: Option<&SourceRestriction>,
    restricted: &Vec<(HttpUrl, HttpUrl)>,
    outcomes: &Vec<(HttpUrl, Option<HttpUrl>)>,
    drop_non_sources: bool,
) -> (r: Result<bool, AgyError>)
    ensures
        r is Err <==> !(old(doc)@ is Search) || !pairs_inside(restriction_option(restriction), pair_views(restricted@)),
        r matches Err(e) ==> e == AgyError::OutputInvalid && final(doc)@ == old(doc)@,
        r is Ok ==> final(doc)@ == projected_step(old(doc)@, pair_views(restricted@), outcome_views(outcomes@), drop_non_sources),
        r matches Ok(empty) ==> empty == no_results(final(doc)@),
{
    let is_search = match doc {
        ResponseDocument::Search(_) => true,
        _ => false,
    };
    if !is_search {
        return Err(AgyError::OutputInvalid);
    }
    let ghost start = doc@;
    let ghost pv = pair_views(restricted@);
    let ghost ov = outcome_views(outcomes@);
    let mut i: usize = 0;
    while i < restricted.len()
        invariant
            pv == pair_views(restricted@),
            i <= restricted@.len(),
            forall|k: int| 0 <= k < i ==> target_inside(restriction_option(restriction), #[trigger] pv[k].1),
        decreases restricted@.len() - i,
    {
        let allowed = match restriction {
            Some(r) => r.allows(&restricted[i].1),
            None => true,
        };
        if !allowed {
            proof {
                assert(!target_inside(restriction_option(restriction), pv[i as int].1));
            }
            return Err(AgyError::OutputInvalid);
        }
        i = i + 1;
    }
    let mut j: usize = 0;
    proof {
        assert(pv.take(0) =~= Seq::<(Seq<char>, Seq<char>)>::empty());
    }
    while j < restricted.len()
        invariant
            pv == pair_views(restricted@),
            j <= restricted@.len(),
            start is Search,
            doc@ == apply_restricted(start, pv.take(j as int)),
            doc@ is Search,
        decreases restricted@.len() - j,
    {
        doc.replace_url(&restricted[j].0, &restricted[j].1);
        proof {
            assert(pv.take(j + 1).drop_last() =~= pv.take(j as int));
        }
        j = j + 1;
    }
    proof {
        assert(pv.take(j as int) =~= pv);
    }
    let ghost middle = doc@;
    let mut k: usize = 0;
    proof {
        assert(ov.take(0) =~= Seq::<(Seq<char>, Option<Seq<char>>)>::empty());
    }
    while k < outcomes.len()
        invariant
            ov == outcome_views(outcomes@),
            k <= outcomes@.len(),
            middle is Search,
            doc@ == apply_outcomes(middle, ov.take(k as int)),
            doc@ is Search,
        decreases outcomes@.len() - k,
    {
        proof {
            assert(ov.take(k + 1).drop_last() =~= ov.take(k as int));
            assert(ov.take(k + 1).last() == ov[k as int]);
        }
        match &outcomes[k].1 {
            Some(target) => doc.replace_url(&outcomes[k].0, target),
            None => doc.remove_search_url(&outcomes[k].0),
        }
        k = k + 1;
    }
    proof {
        assert(ov.take(k as int) =~= ov);
    }
    if drop_non_sources {
        doc.remove_non_source_results();
    }
    match doc {
        ResponseDocument::Search(value) => Ok(value.results.len() == 0),
        _ => Err(AgyError::OutputInvalid),
    }
}

/// The direct result URLs of a search document that are not already verified, in order.
pub open spec fn unverified_direct(s: Seq<SourceView>, verified: Seq<Seq<char>>) -> Seq<Seq<char>>
    decreases s.len(),
{
    if s.len() == 0 {
        Seq::empty()
    } else {
        let before = unverified_direct(s.drop_last(), verified);
        let url = s.last().url;
        if url_kind(url) == SourceUrlKind::Direct && !verified.contains(url) {
            before.push(url)
        } else {
            before
        }
    }
}

/// The direct result URLs of a search answer still to be probed: those not among `verified`.
/// Other documents give none.
pub fn unverified_direct_results(doc: &ResponseDocument, verified: &Vec<HttpUrl>) -> (r: Vec<HttpUrl>)
    ensures
        crate::source_restriction::url_views(r@) == match doc@ {
            DocumentView::Search { results, .. } => unverified_direct(results, crate::source_restriction::url_views(verified@)),
            _ => Seq::<Seq<char>>::empty(),
        },
{
    let mut out: Vec<HttpUrl> = Vec::new();
    match doc {
        ResponseDocument::Search(value) => {
            let ghost sv = source_views(value.results@);
            let ghost vv = crate::source_restriction::url_views(verified@);
            let mut i: usize = 0;
            proof {
                assert(sv.take(0) =~= Seq::<SourceView>::empty());
                assert(crate::source_restriction::url_views(out@) =~= Seq::<Seq<char>>::empty());
            }
            while i < value.results.len()
                invariant
                    sv == source_views(value.results@),
                    vv == crate::source_restriction::url_views(verified@),
                    i <= value.results@.len(),
                    crate::source_restriction::url_views(out@) == unverified_direct(sv.take(i as int), vv),
                decreases value.results@.len() - i,
            {
                let url = &value.results[i].url;
                proof {
                    assert(sv.take(i + 1).drop_last() =~= sv.take(i as int));
                    assert(sv.take(i + 1).last().url == url@);
                }
                if url.source_kind() == SourceUrlKind::Direct
                    && !crate::events::source_policy::has_url(verified, url) {
                    let ghost before = crate::source_restriction::url_views(out@);
                    out.push(url.clone());
                    proof {
                        assert(crate::source_restriction::url_views(out@) =~= before.push(url@));
                    }
                }
                i = i + 1;
            }
            proof {
                assert(sv.take(i as int) =~= sv);
            }
        },
        _ => {
            proof {
                assert(crate::source_restriction::url_views(out@) =~= Seq::<Seq<char>>::empty());
            }
        },
    }
    out
}

/// The URLs of `all` that `read` does not hold, in order.
pub open spec fn unread(all: Seq<Seq<char>>, read: Seq<Seq<char>>) -> Seq<Seq<char>>
    decreases all.len(),
{
    if all.len() == 0 {
        Seq::empty()
    } else {
        let before = unread(all.drop_last(), read);
        if read.contains(all.last()) {
            before
        } else {
            before.push(all.last())
        }
    }
}

/// The transports of an answer that a restricted run did not read, in order: the ones whose
/// targets are only probed, not held to the restriction.
pub fn unread_transports(all: &Vec<HttpUrl>, read: &Vec<HttpUrl>) -> (r: Vec<HttpUrl>)
    ensures
        crate::source_restriction::url_views(r@) == unread(
            crate::source_restriction::url_views(all@),
            crate::source_restriction::url_views(read@),
        ),
{
    let ghost av = crate::source_restriction::url_views(all@);
    let ghost rv = crate::source_restriction::url_views(read@);
    let mut out: Vec<HttpUrl> = Vec::new();
    let mut i: usize = 0;
    proof {
        assert(av.take(0) =~= Seq::<Seq<char>>::empty());
        assert(crate::source_restriction::url_views(out@) =~= Seq::<Seq<char>>::empty());
    }
    while i < all.len()
        invariant
            av == crate::source_restriction::url_views(all@),
            rv == crate::source_restriction::url_views(read@),
            i <= all@.len(),
            crate::source_restriction::url_views(out@) == unread(av.take(i as int), rv),
        decreases all@.len() - i,
    {
        proof {
            assert(av.take(i + 1).drop_last() =~= av.take(i as int));
            assert(av.take(i + 1).last() == all@[i as int]@);
        }
        if !crate::events::source_policy::has_url(read, &all[i]) {
            let ghost before = crate::source_restriction::url_views(out@);
            out.push(all[i].clone());
            proof {
                assert(crate::source_restriction::url_views(out@) =~= before.push(all@[i as int]@));
            }
        }
        i = i + 1;
    }
    proof {
        assert(av.take(i as int) =~= av);
    }
    out
}

} // verus!
