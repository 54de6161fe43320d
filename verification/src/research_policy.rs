//! Research-tool budgets and exact-query policies for one content run.

use vstd::prelude::*;

use crate::source_restriction::{domain_views, RestrictionView, SourceDomain, SourceRestriction};
use crate::text::{chars_of, chars_equal, is_space, is_space_exec, starts_with, starts_with_chars, string_from_chars, push_chars};

verus! {

/// How a search query relates to the required scoped query.
#[derive(Clone, Copy, Debug, PartialEq, Eq, Structural)]
pub enum ScopedQueryKind {
    Initial,
    FollowUp,
    Invalid,
}

/// The required query itself is initial; the required query, one space and one whitespace-free
/// token is a follow-up; anything else is invalid.
pub open spec fn query_kind(required: Seq<char>, query: Seq<char>) -> ScopedQueryKind {
    if query == required {
        ScopedQueryKind::Initial
    } else if query.len() > required.len() + 1 && starts_with(query, required) && query[required.len() as int] == ' '
        && forall|i: int| required.len() + 1 <= i < query.len() ==> !is_space(#[trigger] query[i]) {
        ScopedQueryKind::FollowUp
    } else {
        ScopedQueryKind::Invalid
    }
}

/// The query a temporal-scope search must start from.
#[derive(Debug)]
pub struct RequiredSearchQuery {
    text: String,
}

impl View for RequiredSearchQuery {
    type V = Seq<char>;

    closed spec fn view(&self) -> Seq<char> {
        self.text@
    }
}

impl Clone for RequiredSearchQuery {
    fn clone(&self) -> (r: Self)
        ensures
            r@ == self@,
    {
        RequiredSearchQuery { text: self.text.clone() }
    }
}

/// The caller's source context kept on a scoped query: one ` site:DOMAIN` per domain, in order,
/// then the country, if any, after a space.
pub open spec fn scope_context(domains: Seq<Seq<char>>, country: Option<Seq<char>>) -> Seq<char>
    decreases domains.len(),
{
    if domains.len() == 0 {
        match country {
            Some(c) => " "@ + c,
            None => Seq::empty(),
        }
    } else {
        " site:"@ + domains[0] + scope_context(domains.drop_first(), country)
    }
}

/// The exact query for one caller scope: the scope, the original query, then the caller's
/// domains and country.
pub open spec fn exact_scope_query(
    query: Seq<char>,
    scope: Seq<char>,
    domains: Seq<Seq<char>>,
    country: Option<Seq<char>>,
) -> Seq<char> {
    "For exact scope \""@ + scope
        + "\" only, find its latest release, exact version, and source-published date; do not use another scope's value. Original request constraints: "@
        + query + scope_context(domains, country)
}

impl RequiredSearchQuery {
    /// The required query for one exact scope of a request.
    pub fn for_exact_scope(
        query: &str,
        scope: &str,
        domains: &Vec<SourceDomain>,
        country: Option<&str>,
    ) -> (r: RequiredSearchQuery)
        ensures
            r@ == exact_scope_query(query@, scope@, domain_views(domains@), match country {
                Some(c) => Some(c@),
                None => None,
            }),
    {
        let ghost dv = domain_views(domains@);
        let ghost cv = match country {
            Some(c) => Some(c@),
            None => None::<Seq<char>>,
        };
        let mut text = chars_of("For exact scope \"");
        push_chars(&mut text, chars_of(scope).as_slice());
        push_chars(&mut text, chars_of("\" only, find its latest release, exact version, and source-published date; do not use another scope's value. Original request constraints: ").as_slice());
        push_chars(&mut text, chars_of(query).as_slice());
        let ghost head = text@;
        let mut i: usize = 0;
        proof {
            assert(dv.skip(0) =~= dv);
            assert(head + Seq::<char>::empty() =~= head);
        }
        while i < domains.len()
            invariant
                dv == domain_views(domains@),
                i <= domains@.len(),
                head + scope_context(dv, cv) == text@ + scope_context(dv.skip(i as int), cv),
            decreases domains@.len() - i,
        {
            let ghost before = text@;
            proof {
                assert(dv.skip(i as int).drop_first() =~= dv.skip(i + 1));
                assert(dv.skip(i as int)[0] == domains@[i as int]@);
            }
            push_chars(&mut text, chars_of(" site:").as_slice());
            push_chars(&mut text, chars_of(domains[i].as_str()).as_slice());
            proof {
                assert(before + scope_context(dv.skip(i as int), cv) =~= text@ + scope_context(dv.skip(i + 1), cv));
            }
            i = i + 1;
        }
        let ghost body = text@;
        match country {
            Some(c) => {
                push_chars(&mut text, chars_of(" ").as_slice());
                push_chars(&mut text, chars_of(c).as_slice());
            },
            None => {},
        }
        proof {
            assert(dv.skip(i as int).len() == 0);
            assert(text@ =~= body + scope_context(dv.skip(i as int), cv));
            assert(text@ =~= head + scope_context(dv, cv));
        }
        RequiredSearchQuery { text: string_from_chars(text.as_slice()) }
    }

    /// The required query text.
    pub fn as_str(&self) -> (s: &str)
        ensures
            s@ == self@,
    {
        self.text.as_str()
    }

    /// How `query` relates to the required query.
    pub fn classify(&self, query: &str) -> (k: ScopedQueryKind)
        ensures
            k == query_kind(self@, query@),
    {
        let required = chars_of(self.text.as_str());
        let q = chars_of(query);
        if chars_equal(q.as_slice(), required.as_slice()) {
            return ScopedQueryKind::Initial;
        }
        let n = required.len();
        if q.len() == 0 || q.len() - 1 <= n || !starts_with_chars(q.as_slice(), required.as_slice()) || q[n] != ' ' {
            return ScopedQueryKind::Invalid;
        }
        let mut i = n + 1;
        while i < q.len()
            invariant
                n + 1 <= i <= q@.len(),
                q@ == query@,
                required@ == self@,
                n == required@.len(),
                q@ != required@,
                forall|k: int| n + 1 <= k < i ==> !is_space(#[trigger] q@[k]),
            decreases q@.len() - i,
        {
            if is_space_exec(q[i]) {
                return ScopedQueryKind::Invalid;
            }
            i = i + 1;
        }
        ScopedQueryKind::FollowUp
    }
}

/// How many research-tool attempts a run may make.
#[derive(Clone, Copy, Debug, PartialEq, Eq, Structural)]
pub enum ResearchToolBudget {
    /// One search plus one read.
    StandardSearch,
    /// A temporal comparison search: at most eight attempts.
    TemporalSearch,
    /// A research run with its own attempt budget.
    Research(u16),
    /// An extract, map or crawl run: one read.
    Single,
}

/// The attempts a budget allows.
pub open spec fn budget_maximum(b: ResearchToolBudget) -> nat {
    match b {
        ResearchToolBudget::StandardSearch => 2,
        ResearchToolBudget::TemporalSearch => 8,
        ResearchToolBudget::Research(n) => n as nat,
        ResearchToolBudget::Single => 1,
    }
}

impl ResearchToolBudget {
    /// The attempts the budget allows.
    pub fn maximum(&self) -> (n: usize)
        ensures
            n == budget_maximum(*self),
    {
        match self {
            ResearchToolBudget::StandardSearch => 2,
            ResearchToolBudget::TemporalSearch => 8,
            ResearchToolBudget::Research(n) => *n as usize,
            ResearchToolBudget::Single => 1,
        }
    }
}

/// What research tools a run may use and how its evidence is judged.
#[derive(Debug)]
pub enum ResearchToolPolicy {
    Budget(ResearchToolBudget),
    Restricted { budget: ResearchToolBudget, restriction: SourceRestriction },
    ScopedTemporalSearch(RequiredSearchQuery),
    RestrictedScopedTemporalSearch { required_query: RequiredSearchQuery, restriction: SourceRestriction },
}

/// A policy, seen through its parts.
pub enum PolicyView {
    Budget(ResearchToolBudget),
    Restricted { budget: ResearchToolBudget, restriction: RestrictionView },
    ScopedTemporalSearch(Seq<char>),
    RestrictedScopedTemporalSearch { required_query: Seq<char>, restriction: RestrictionView },
}

impl View for ResearchToolPolicy {
    type V = PolicyView;

    open spec fn view(&self) -> PolicyView {
        match self {
            ResearchToolPolicy::Budget(b) => PolicyView::Budget(*b),
            ResearchToolPolicy::Restricted { budget, restriction } => PolicyView::Restricted {
                budget: *budget,
                restriction: restriction@,
            },
            ResearchToolPolicy::ScopedTemporalSearch(q) => PolicyView::ScopedTemporalSearch(q@),
            ResearchToolPolicy::RestrictedScopedTemporalSearch { required_query, restriction } =>
                PolicyView::RestrictedScopedTemporalSearch {
                required_query: required_query@,
                restriction: restriction@,
            },
        }
    }
}

/// The attempts a policy allows; a scoped search allows two.
pub open spec fn policy_maximum(p: PolicyView) -> nat {
    match p {
        PolicyView::Budget(b) => budget_maximum(b),
        PolicyView::Restricted { budget, .. } => budget_maximum(budget),
        PolicyView::ScopedTemporalSearch(_) => 2,
        PolicyView::RestrictedScopedTemporalSearch { .. } => 2,
    }
}

impl ResearchToolPolicy {
    /// The attempts the policy allows.
    pub fn maximum(&self) -> (n: usize)
        ensures
            n == policy_maximum(self@),
    {
        match self {
            ResearchToolPolicy::Budget(b) => b.maximum(),
            ResearchToolPolicy::Restricted { budget, .. } => budget.maximum(),
            ResearchToolPolicy::ScopedTemporalSearch(_) => 2,
            ResearchToolPolicy::RestrictedScopedTemporalSearch { .. } => 2,
        }
    }
}

} // verus!

verus! {

/// The required query itself is the initial query.
pub proof fn law_required_query_is_initial(required: Seq<char>)
    ensures
        query_kind(required, required) == ScopedQueryKind::Initial,
{
}

/// The required query followed by one space and one non-empty whitespace-free token is a
/// follow-up.
pub proof fn law_single_token_followup(required: Seq<char>, token: Seq<char>)
    requires
        token.len() > 0,
        forall|i: int| 0 <= i < token.len() ==> !is_space(#[trigger] token[i]),
    ensures
        query_kind(required, required + seq![' '] + token) == ScopedQueryKind::FollowUp,
{
    let q = required + seq![' '] + token;
    assert(q.take(required.len() as int) =~= required);
    assert(q[required.len() as int] == ' ');
    assert(q != required) by {
        assert(q.len() != required.len());
    }
    assert forall|i: int| required.len() + 1 <= i < q.len() implies !is_space(#[trigger] q[i]) by {
        assert(q[i] == token[i - required.len() - 1]);
    }
}

} // verus!
