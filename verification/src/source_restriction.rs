//! Caller-owned source allowlists: domain trees and exact URLs.

use vstd::prelude::*;

use crate::error::AgyError;
use crate::http_url::{scheme_len, HttpUrl};
use crate::text::{
    ascii_words, ascii_words_of, chars_equal, chars_of, is_ascii_alnum, is_ascii_alnum_exec,
    is_digit, is_digit_exec, lower_ascii, lower_ascii_exec, slice_chars, starts_with,
    starts_with_chars, string_from_chars, views,
};

verus! {

/// The most domains one restriction may name.
pub const MAX_DOMAINS: usize = 20;

/// A character of a canonical domain.
pub open spec fn domain_char(c: char) -> bool {
    ('a' <= c && c <= 'z') || is_digit(c) || c == '-' || c == '.'
}

/// Dot-separated non-empty labels of domain characters, with at least one dot.
pub open spec fn dotted_labels(t: Seq<char>) -> bool {
    &&& t.len() > 0
    &&& forall|i: int| 0 <= i < t.len() ==> domain_char(#[trigger] t[i])
    &&& t[0] != '.'
    &&& t.last() != '.'
    &&& forall|i: int| 0 <= i < t.len() - 1 ==> !(#[trigger] t[i] == '.' && t[i + 1] == '.')
    &&& exists|i: int| 0 <= i < t.len() && #[trigger] t[i] == '.'
}

/// The canonical form of a domain: ASCII lowercase and without one trailing dot; it must then
/// be dot-separated labels.
pub open spec fn canonical_domain(s: Seq<char>) -> Option<Seq<char>> {
    let lower = Seq::new(s.len(), |i: int| lower_ascii(s[i]));
    let t = if lower.len() > 0 && lower.last() == '.' {
        lower.drop_last()
    } else {
        lower
    };
    if dotted_labels(t) {
        Some(t)
    } else {
        None
    }
}

/// A character of a host label in a URL.
pub open spec fn label_char(c: char) -> bool {
    is_ascii_alnum(c) || c == '-'
}

/// Zero or more labels, each followed by a dot.
pub open spec fn label_prefix(p: Seq<char>) -> bool {
    &&& forall|i: int| 0 <= i < p.len() ==> label_char(#[trigger] p[i]) || p[i] == '.'
    &&& p.len() > 0 ==> p[0] != '.' && p.last() == '.'
    &&& forall|i: int| 0 <= i < p.len() - 1 ==> !(#[trigger] p[i] == '.' && p[i + 1] == '.')
}

/// A character that ends a host.
pub open spec fn host_end(c: char) -> bool {
    c == ':' || c == '/' || c == '?' || c == '#'
}

/// The number of leading characters of `s` that do not end a host.
pub open spec fn host_len(s: Seq<char>) -> nat
    decreases s.len(),
{
    if s.len() > 0 && !host_end(s[0]) {
        1 + host_len(s.drop_first())
    } else {
        0
    }
}

/// The number of leading ASCII digits of `s`.
pub open spec fn digit_run(s: Seq<char>) -> nat
    decreases s.len(),
{
    if s.len() > 0 && is_digit(s[0]) {
        1 + digit_run(s.drop_first())
    } else {
        0
    }
}

/// What may follow a matching host: nothing, or a path, query or fragment, optionally after
/// a numeric port.
pub open spec fn after_host_ok(r: Seq<char>) -> bool {
    ||| r.len() == 0
    ||| r[0] == '/' || r[0] == '?' || r[0] == '#'
    ||| r[0] == ':' && {
        let p = digit_run(r.drop_first()) as int;
        p >= 1 && (p == r.len() - 1 || r[p + 1] == '/' || r[p + 1] == '?' || r[p + 1] == '#')
    }
}

/// `url` lies in the domain tree of `domain`: its host is `domain` or ends in `.domain` after
/// labels of letters, digits and hyphens (`^https?://(?:[A-Za-z0-9-]+\.)*DOMAIN(?::[0-9]+)?(?:[/?#]|$)`).
pub open spec fn in_domain_tree(url: Seq<char>, domain: Seq<char>) -> bool {
    let n = scheme_len(url);
    let a = url.skip(n);
    let h = host_len(a);
    let host = a.take(h as int);
    &&& n > 0
    &&& host.len() >= domain.len()
    &&& host.skip(host.len() - domain.len()) == domain
    &&& label_prefix(host.take(host.len() - domain.len()))
    &&& after_host_ok(a.skip(h as int))
}

/// The `site:` words of a query.
pub open spec fn site_words(words: Seq<Seq<char>>) -> Seq<Seq<char>>
    decreases words.len(),
{
    if words.len() == 0 {
        Seq::empty()
    } else if starts_with(words.last(), "site:"@) {
        site_words(words.drop_last()).push(words.last())
    } else {
        site_words(words.drop_last())
    }
}

/// The `site:` token of each domain, in order.
pub open spec fn site_tokens(domains: Seq<Seq<char>>) -> Seq<Seq<char>> {
    Seq::new(domains.len(), |i: int| "site:"@ + domains[i])
}

/// A canonical caller domain.
#[derive(Debug, PartialEq, Eq, Hash)]
pub struct SourceDomain {
    text: String,
}

impl View for SourceDomain {
    type V = Seq<char>;

    closed spec fn view(&self) -> Seq<char> {
        self.text@
    }
}

impl Clone for SourceDomain {
    fn clone(&self) -> (r: Self)
        ensures
            r@ == self@,
    {
        proof {
            use_type_invariant(self);
        }
        SourceDomain { text: self.text.clone() }
    }
}

/// The views of a sequence of domains.
pub open spec fn domain_views(v: Seq<SourceDomain>) -> Seq<Seq<char>> {
    Seq::new(v.len(), |i: int| v[i]@)
}

/// The views of a sequence of URLs.
pub open spec fn url_views(v: Seq<HttpUrl>) -> Seq<Seq<char>> {
    Seq::new(v.len(), |i: int| v[i]@)
}

impl SourceDomain {
    #[verifier::type_invariant]
    closed spec fn well_formed(self) -> bool {
        dotted_labels(self.text@)
    }

    /// Canonicalize a caller domain.
    pub fn parse(value: &str) -> (r: Result<SourceDomain, &'static str>)
        ensures
            match r {
                Ok(d) => canonical_domain(value@) == Some(d@),
                Err(m) => canonical_domain(value@) is None && m@ == "invalid source domain"@,
            },
    {
        let chars = chars_of(value);
        let mut lower: Vec<char> = Vec::new();
        let mut i: usize = 0;
        while i < chars.len()
            invariant
                i <= chars@.len(),
                lower@ == Seq::new(i as nat, |k: int| lower_ascii(chars@[k])),
            decreases chars@.len() - i,
        {
            lower.push(lower_ascii_exec(chars[i]));
            i = i + 1;
            proof {
                assert(lower@ =~= Seq::new(i as nat, |k: int| lower_ascii(chars@[k])));
            }
        }
        proof {
            assert(lower@ =~= Seq::new(value@.len(), |k: int| lower_ascii(value@[k])));
        }
        if lower.len() > 0 && lower[lower.len() - 1] == '.' {
            lower.pop();
        }
        if !dotted_labels_exec(&lower) {
            return Err("invalid source domain");
        }
        Ok(SourceDomain { text: string_from_chars(lower.as_slice()) })
    }

    /// The canonical domain text.
    pub fn as_str(&self) -> (s: &str)
        ensures
            s@ == self@,
    {
        self.text.as_str()
    }
}

/// Whether `t` is dot-separated labels with at least one dot.
fn dotted_labels_exec(t: &Vec<char>) -> (r: bool)
    ensures
        r == dotted_labels(t@),
{
    let n = t.len();
    if n == 0 || t[0] == '.' || t[n - 1] == '.' {
        return false;
    }
    let mut has_dot = false;
    let mut i: usize = 0;
    while i < n
        invariant
            n == t@.len(),
            n > 0,
            i <= n,
            forall|k: int| 0 <= k < i ==> domain_char(#[trigger] t@[k]),
            forall|k: int| 0 <= k < i && k < n - 1 ==> !(#[trigger] t@[k] == '.' && t@[k + 1] == '.'),
            has_dot == exists|k: int| 0 <= k < i && #[trigger] t@[k] == '.',
        decreases n - i,
    {
        let c = t[i];
        if !(('a' <= c && c <= 'z') || is_digit_exec(c) || c == '-' || c == '.') {
            proof {
                assert(!domain_char(t@[i as int]));
            }
            return false;
        }
        if c == '.' {
            if i + 1 < n && t[i + 1] == '.' {
                proof {
                    assert(t@[i as int] == '.' && t@[i + 1] == '.');
                }
                return false;
            }
            has_dot = true;
        }
        i = i + 1;
    }
    has_dot
}

/// Where a request may draw its sources from.
#[derive(Debug)]
pub enum SourceRestriction {
    Unrestricted,
    Allowlist { domains: Vec<SourceDomain>, urls: Vec<HttpUrl> },
}

/// A restriction: no domain and no URL means none; otherwise the domains (at most twenty) and
/// exact URLs allowed.
pub enum RestrictionView {
    Unrestricted,
    Allowlist { domains: Seq<Seq<char>>, urls: Seq<Seq<char>> },
}

impl View for SourceRestriction {
    type V = RestrictionView;

    open spec fn view(&self) -> RestrictionView {
        match self {
            SourceRestriction::Unrestricted => RestrictionView::Unrestricted,
            SourceRestriction::Allowlist { domains, urls } => RestrictionView::Allowlist {
                domains: domain_views(domains@),
                urls: url_views(urls@),
            },
        }
    }
}

/// `url` is allowed: nothing is restricted, or it is an exact member, or it lies in a domain tree.
pub open spec fn restriction_allows(r: RestrictionView, url: Seq<char>) -> bool {
    match r {
        RestrictionView::Unrestricted => true,
        RestrictionView::Allowlist { domains, urls } => urls.contains(url) || exists|i: int|
            0 <= i < domains.len() && in_domain_tree(url, #[trigger] domains[i]),
    }
}

/// A search query keeps the caller's site expression: its `site:` words are exactly the
/// domains' `site:` tokens, in order.
pub open spec fn restriction_allows_query(r: RestrictionView, query: Seq<char>) -> bool {
    match r {
        RestrictionView::Unrestricted => true,
        RestrictionView::Allowlist { domains, urls: _ } => site_words(ascii_words(query)) == site_tokens(domains),
    }
}

impl SourceRestriction {
    /// Build a restriction from caller domains and exact URLs.
    pub fn parse(domains: Vec<SourceDomain>, urls: Vec<HttpUrl>) -> (r: Result<SourceRestriction, AgyError>)
        ensures
            match r {
                Ok(SourceRestriction::Unrestricted) => domains@.len() == 0 && urls@.len() == 0,
                Ok(SourceRestriction::Allowlist { domains: d, urls: u }) => (domains@.len() > 0
                    || urls@.len() > 0) && domains@.len() <= MAX_DOMAINS && d@ == domains@
                    && u@ == urls@,
                Err(e) => domains@.len() > MAX_DOMAINS && e == AgyError::InvalidCommand,
            },
    {
        if domains.len() > MAX_DOMAINS {
            return Err(AgyError::InvalidCommand);
        }
        if domains.len() == 0 && urls.len() == 0 {
            return Ok(SourceRestriction::Unrestricted);
        }
        Ok(SourceRestriction::Allowlist { domains, urls })
    }

    /// Whether nothing is restricted.
    pub fn is_unrestricted(&self) -> (r: bool)
        ensures
            r == (self@ is Unrestricted),
    {
        match self {
            SourceRestriction::Unrestricted => true,
            SourceRestriction::Allowlist { .. } => false,
        }
    }

    /// Whether the restriction names exact URLs.
    pub fn has_exact_urls(&self) -> (r: bool)
        ensures
            r == (self@ matches RestrictionView::Allowlist { urls, .. } && urls.len() > 0),
    {
        match self {
            SourceRestriction::Unrestricted => false,
            SourceRestriction::Allowlist { urls, .. } => urls.len() > 0,
        }
    }

    /// Whether the restriction names domains.
    pub fn has_domains(&self) -> (r: bool)
        ensures
            r == (self@ matches RestrictionView::Allowlist { domains, .. } && domains.len() > 0),
    {
        match self {
            SourceRestriction::Unrestricted => false,
            SourceRestriction::Allowlist { domains, .. } => domains.len() > 0,
        }
    }

    /// Whether `url` may be used as a source.
    pub fn allows(&self, url: &HttpUrl) -> (r: bool)
        ensures
            r == restriction_allows(self@, url@),
    {
        match self {
            SourceRestriction::Unrestricted => true,
            SourceRestriction::Allowlist { domains, urls } => {
                let ghost uv = url_views(urls@);
                let mut i: usize = 0;
                while i < urls.len()
                    invariant
                        self@ == (RestrictionView::Allowlist { domains: domain_views(domains@), urls: url_views(urls@) }),
                        uv == url_views(urls@),
                        i <= urls@.len(),
                        forall|k: int| 0 <= k < i ==> uv[k] != url@,
                    decreases urls@.len() - i,
                {
                    if urls[i].same_url(url) {
                        proof {
                            assert(uv[i as int] == url@);
                            assert(uv.contains(url@));
                        }
                        return true;
                    }
                    i = i + 1;
                }
                proof {
                    assert(!uv.contains(url@));
                }
                let ghost dv = domain_views(domains@);
                let text = chars_of(url.as_str());
                let mut j: usize = 0;
                while j < domains.len()
                    invariant
                        self@ == (RestrictionView::Allowlist { domains: domain_views(domains@), urls: url_views(urls@) }),
                        dv == domain_views(domains@),
                        text@ == url@,
                        j <= domains@.len(),
                        forall|k: int| 0 <= k < j ==> !in_domain_tree(url@, #[trigger] dv[k]),
                    decreases domains@.len() - j,
                {
                    let d = chars_of(domains[j].as_str());
                    if in_domain_tree_exec(&text, &d) {
                        proof {
                            assert(dv[j as int] == d@);
                            assert(in_domain_tree(url@, dv[j as int]));
                            assert(self@->domains[j as int] == dv[j as int]);
                            assert(restriction_allows(self@, url@));
                        }
                        return true;
                    }
                    j = j + 1;
                }
                false
            },
        }
    }

    /// Whether a search query keeps the caller's site expression.
    pub fn allows_search_query(&self, query: &str) -> (r: bool)
        ensures
            r == restriction_allows_query(self@, query@),
    {
        match self {
            SourceRestriction::Unrestricted => true,
            SourceRestriction::Allowlist { domains, urls } => {
                let chars = chars_of(query);
                let words = ascii_words_of(&chars);
                let sites = site_words_exec(&words);
                let ghost dv = domain_views(domains@);
                if sites.len() != domains.len() {
                    proof {
                        assert(site_tokens(dv).len() == dv.len());
                    }
                    return false;
                }
                let prefix = chars_of("site:");
                let mut i: usize = 0;
                while i < domains.len()
                    invariant
                        self@ == (RestrictionView::Allowlist { domains: domain_views(domains@), urls: url_views(urls@) }),
                        dv == domain_views(domains@),
                        sites@.len() == dv.len(),
                        views(sites@) == site_words(ascii_words(query@)),
                        prefix@ == "site:"@,
                        i <= dv.len(),
                        forall|k: int| 0 <= k < i ==> (#[trigger] sites@[k])@ == site_tokens(dv)[k],
                    decreases dv.len() - i,
                {
                    let mut token = prefix.clone();
                    let d = chars_of(domains[i].as_str());
                    append_chars(&mut token, &d);
                    if !chars_equal(sites[i].as_slice(), token.as_slice()) {
                        proof {
                            assert(views(sites@)[i as int] != site_tokens(dv)[i as int]);
                        }
                        return false;
                    }
                    i = i + 1;
                }
                proof {
                    assert(views(sites@) =~= site_tokens(dv));
                }
                true
            },
        }
    }
}

/// Append `extra` to `out`.
fn append_chars(out: &mut Vec<char>, extra: &Vec<char>)
    ensures
        final(out)@ == old(out)@ + extra@,
{
    let mut i: usize = 0;
    while i < extra.len()
        invariant
            i <= extra@.len(),
            out@ == old(out)@ + extra@.take(i as int),
        decreases extra@.len() - i,
    {
        out.push(extra[i]);
        i = i + 1;
        proof {
            assert(out@ =~= old(out)@ + extra@.take(i as int));
        }
    }
    proof {
        assert(extra@.take(i as int) =~= extra@);
    }
}

/// The `site:` words among `words`, in order.
fn site_words_exec(words: &Vec<Vec<char>>) -> (r: Vec<Vec<char>>)
    ensures
        views(r@) == site_words(views(words@)),
{
    proof {
        reveal_strlit("site:");
    }
    let prefix = chars_of("site:");
    let ghost wv = views(words@);
    let mut out: Vec<Vec<char>> = Vec::new();
    let mut i: usize = 0;
    proof {
        assert(wv.take(0) =~= Seq::<Seq<char>>::empty());
        assert(views(out@) =~= Seq::<Seq<char>>::empty());
    }
    while i < words.len()
        invariant
            wv == views(words@),
            prefix@ == "site:"@,
            i <= words@.len(),
            views(out@) == site_words(wv.take(i as int)),
        decreases words@.len() - i,
    {
        proof {
            assert(wv.take(i + 1).drop_last() =~= wv.take(i as int));
            assert(wv.take(i + 1).last() == words@[i as int]@);
        }
        if starts_with_chars(words[i].as_slice(), prefix.as_slice()) {
            let ghost before = views(out@);
            out.push(words[i].clone());
            proof {
                assert(views(out@) =~= before.push(words@[i as int]@));
            }
        }
        i = i + 1;
    }
    proof {
        assert(wv.take(i as int) =~= wv);
    }
    out
}

/// The length of the host at the start of `a`.
fn host_len_exec(a: &Vec<char>, start: usize) -> (n: usize)
    requires
        start <= a@.len(),
    ensures
        start + n <= a@.len(),
        n == host_len(a@.skip(start as int)),
{
    let mut i = start;
    while i < a.len() && !(a[i] == ':' || a[i] == '/' || a[i] == '?' || a[i] == '#')
        invariant
            start <= i <= a@.len(),
            forall|k: int| start <= k < i ==> !host_end(#[trigger] a@[k]),
        decreases a@.len() - i,
    {
        i = i + 1;
    }
    proof {
        lemma_host_len(a@.skip(start as int), (i - start) as int);
    }
    i - start
}

proof fn lemma_host_len(s: Seq<char>, n: int)
    requires
        0 <= n <= s.len(),
        forall|k: int| 0 <= k < n ==> !host_end(#[trigger] s[k]),
        n == s.len() || host_end(s[n]),
    ensures
        host_len(s) == n,
    decreases n,
{
    if n > 0 {
        assert forall|k: int| 0 <= k < n - 1 implies !host_end(#[trigger] s.drop_first()[k]) by {
            assert(s.drop_first()[k] == s[k + 1]);
        }
        lemma_host_len(s.drop_first(), n - 1);
    }
}

proof fn lemma_digit_run(s: Seq<char>, n: int)
    requires
        0 <= n <= s.len(),
        forall|k: int| 0 <= k < n ==> is_digit(#[trigger] s[k]),
        n == s.len() || !is_digit(s[n]),
    ensures
        digit_run(s) == n,
    decreases n,
{
    if n > 0 {
        assert forall|k: int| 0 <= k < n - 1 implies is_digit(#[trigger] s.drop_first()[k]) by {
            assert(s.drop_first()[k] == s[k + 1]);
        }
        lemma_digit_run(s.drop_first(), n - 1);
    }
}

/// Whether `p` is zero or more labels each followed by a dot.
fn label_prefix_exec(p: &Vec<char>) -> (r: bool)
    ensures
        r == label_prefix(p@),
{
    let n = p.len();
    if n > 0 && (p[0] == '.' || p[n - 1] != '.') {
        return false;
    }
    let mut i: usize = 0;
    while i < n
        invariant
            n == p@.len(),
            i <= n,
            forall|k: int| 0 <= k < i ==> label_char(#[trigger] p@[k]) || p@[k] == '.',
            forall|k: int| 0 <= k < i && k < n - 1 ==> !(#[trigger] p@[k] == '.' && p@[k + 1] == '.'),
        decreases n - i,
    {
        let c = p[i];
        if !(is_ascii_alnum_exec(c) || c == '-' || c == '.') {
            proof {
                assert(!(label_char(p@[i as int]) || p@[i as int] == '.'));
            }
            return false;
        }
        if c == '.' && i + 1 < n && p[i + 1] == '.' {
            proof {
                assert(p@[i as int] == '.' && p@[i + 1] == '.');
            }
            return false;
        }
        i = i + 1;
    }
    true
}

/// Whether what follows a host is acceptable.
fn after_host_exec(a: &Vec<char>, start: usize) -> (r: bool)
    requires
        start <= a@.len(),
    ensures
        r == after_host_ok(a@.skip(start as int)),
{
    let ghost r = a@.skip(start as int);
    let n = a.len();
    if start == n {
        return true;
    }
    let c = a[start];
    proof {
        assert(r[0] == c);
    }
    if c == '/' || c == '?' || c == '#' {
        return true;
    }
    if c != ':' {
        return false;
    }
    let mut i = start + 1;
    while i < n && is_digit_exec(a[i])
        invariant
            start + 1 <= i <= n,
            n == a@.len(),
            forall|k: int| start + 1 <= k < i ==> is_digit(#[trigger] a@[k]),
        decreases n - i,
    {
        i = i + 1;
    }
    proof {
        let d = r.drop_first();
        assert(d =~= a@.skip(start + 1));
        assert forall|k: int| 0 <= k < i - start - 1 implies is_digit(#[trigger] d[k]) by {
            assert(d[k] == a@[start + 1 + k]);
        }
        if i < n {
            assert(d[i - start - 1] == a@[i as int]);
        }
        lemma_digit_run(d, i - start - 1);
        if i < n {
            assert(r[i - start] == a@[i as int]);
        }
    }
    let p = i - start - 1;
    p >= 1 && (i == n || a[i] == '/' || a[i] == '?' || a[i] == '#')
}

/// Whether `url` lies in the domain tree of `domain`.
fn in_domain_tree_exec(url: &Vec<char>, domain: &Vec<char>) -> (r: bool)
    ensures
        r == in_domain_tree(url@, domain@),
{
    let len = url.len();
    let n = scheme_len_of(url);
    if n == 0 {
        return false;
    }
    let h = host_len_exec(url, n);
    proof {
        assert(url@.skip(n as int).take(h as int) =~= url@.subrange(n as int, n + h));
        assert(url@.skip(n as int).skip(h as int) =~= url@.skip(n + h));
    }
    if h < domain.len() {
        return false;
    }
    let cut = n + h - domain.len();
    let tail = slice_chars(url, cut, n + h);
    let head = slice_chars(url, n, cut);
    proof {
        let host = url@.subrange(n as int, n + h);
        assert(host.skip(host.len() - domain@.len()) =~= tail@);
        assert(host.take(host.len() - domain@.len()) =~= head@);
    }
    chars_equal(tail.as_slice(), domain.as_slice()) && label_prefix_exec(&head) && after_host_exec(url, n + h)
}

/// The URL scheme `value` starts with, as a length.
fn scheme_len_of(value: &Vec<char>) -> (n: usize)
    ensures
        n == scheme_len(value@),
        n <= value@.len(),
{
    proof {
        reveal_strlit("https://");
        reveal_strlit("http://");
    }
    let https = chars_of("https://");
    let http = chars_of("http://");
    if starts_with_chars(value.as_slice(), https.as_slice()) {
        8
    } else if starts_with_chars(value.as_slice(), http.as_slice()) {
        7
    } else {
        0
    }
}

} // verus!

verus! {

impl Clone for SourceRestriction {
    fn clone(&self) -> (r: Self)
        ensures
            r@ == self@,
    {
        match self {
            SourceRestriction::Unrestricted => SourceRestriction::Unrestricted,
            SourceRestriction::Allowlist { domains, urls } => {
                let mut d: Vec<SourceDomain> = Vec::new();
                let mut i: usize = 0;
                while i < domains.len()
                    invariant
                        i <= domains@.len(),
                        domain_views(d@) == domain_views(domains@).take(i as int),
                    decreases domains@.len() - i,
                {
                    let ghost before = domain_views(d@);
                    d.push(domains[i].clone());
                    proof {
                        assert(domain_views(d@) =~= before.push(domains@[i as int]@));
                        assert(domain_views(domains@).take(i + 1) =~= domain_views(domains@).take(i as int).push(domains@[i as int]@));
                    }
                    i = i + 1;
                }
                let mut u: Vec<HttpUrl> = Vec::new();
                let mut j: usize = 0;
                while j < urls.len()
                    invariant
                        j <= urls@.len(),
                        url_views(u@) == url_views(urls@).take(j as int),
                    decreases urls@.len() - j,
                {
                    let ghost before = url_views(u@);
                    u.push(urls[j].clone());
                    proof {
                        assert(url_views(u@) =~= before.push(urls@[j as int]@));
                        assert(url_views(urls@).take(j + 1) =~= url_views(urls@).take(j as int).push(urls@[j as int]@));
                    }
                    j = j + 1;
                }
                proof {
                    assert(domain_views(domains@).take(i as int) =~= domain_views(domains@));
                    assert(url_views(urls@).take(j as int) =~= url_views(urls@));
                }
                SourceRestriction::Allowlist { domains: d, urls: u }
            },
        }
    }
}

} // verus!

verus! {

/// An exact URL member of an allowlist is always allowed.
pub proof fn law_exact_members_are_allowed(domains: Seq<Seq<char>>, urls: Seq<Seq<char>>, url: Seq<char>)
    requires
        urls.contains(url),
    ensures
        restriction_allows(RestrictionView::Allowlist { domains, urls }, url),
{
}

/// A canonical domain is its own canonical form.
pub proof fn law_canonical_domain_is_stable(s: Seq<char>)
    requires
        dotted_labels(s),
    ensures
        canonical_domain(s) == Some(s),
{
    let lower = Seq::new(s.len(), |i: int| lower_ascii(s[i]));
    assert forall|i: int| 0 <= i < s.len() implies lower[i] == s[i] by {
        assert(domain_char(s[i]));
    }
    assert(lower =~= s);
}

} // verus!

verus! {

proof fn lemma_host_len_append(x: Seq<char>, y: Seq<char>)
    requires
        forall|i: int| 0 <= i < x.len() ==> !host_end(#[trigger] x[i]),
    ensures
        host_len(x + y) == x.len() + host_len(y),
    decreases x.len(),
{
    if x.len() == 0 {
        assert(x + y =~= y);
    } else {
        assert((x + y)[0] == x[0]);
        assert((x + y).drop_first() =~= x.drop_first() + y);
        lemma_host_len_append(x.drop_first(), y);
    }
}

/// Labels before a domain: non-empty runs of ASCII letters, digits and hyphens joined by single
/// dots (`[A-Za-z0-9-]+(\.[A-Za-z0-9-]+)*`).
pub open spec fn hyphenated_labels(l: Seq<char>) -> bool {
    &&& l.len() > 0
    &&& forall|i: int| 0 <= i < l.len() ==> is_ascii_alnum(#[trigger] l[i]) || l[i] == '-' || l[i] == '.'
    &&& l[0] != '.'
    &&& l.last() != '.'
    &&& forall|i: int| 0 <= i < l.len() - 1 ==> !(#[trigger] l[i] == '.' && l[i + 1] == '.')
}

/// What may end a matching URL: nothing, or a path, query or fragment.
pub open spec fn plain_tail(rest: Seq<char>) -> bool {
    rest.len() == 0 || rest[0] == '/' || rest[0] == '?' || rest[0] == '#'
}

proof fn lemma_tree_member(scheme: Seq<char>, host: Seq<char>, domain: Seq<char>, rest: Seq<char>)
    requires
        scheme_len(scheme + host + rest) == scheme.len(),
        scheme.len() > 0,
        dotted_labels(domain),
        host.len() >= domain.len(),
        host.skip(host.len() - domain.len()) == domain,
        label_prefix(host.take(host.len() - domain.len())),
        forall|i: int| 0 <= i < host.len() ==> !host_end(#[trigger] host[i]),
        after_host_ok(rest),
        rest.len() == 0 || host_end(rest[0]),
    ensures
        in_domain_tree(scheme + host + rest, domain),
{
    let url = scheme + host + rest;
    let a = url.skip(scheme.len() as int);
    assert(a =~= host + rest);
    lemma_host_len_append(host, rest);
    assert(host_len(rest) == 0);
    assert(a.take(host.len() as int) =~= host);
    assert(a.skip(host.len() as int) =~= rest);
}

proof fn lemma_digit_run_append(x: Seq<char>, y: Seq<char>)
    requires
        forall|i: int| 0 <= i < x.len() ==> is_digit(#[trigger] x[i]),
        y.len() == 0 || !is_digit(y[0]),
    ensures
        digit_run(x + y) == x.len(),
    decreases x.len(),
{
    if x.len() == 0 {
        assert(x + y =~= y);
    } else {
        assert((x + y)[0] == x[0]);
        assert((x + y).drop_first() =~= x.drop_first() + y);
        lemma_digit_run_append(x.drop_first(), y);
    }
}

/// A tail of a numeric port and then a path, query, fragment or nothing may follow a host.
proof fn lemma_port_tail(port: Seq<char>, rest: Seq<char>)
    requires
        port.len() > 0,
        forall|i: int| 0 <= i < port.len() ==> is_digit(#[trigger] port[i]),
        plain_tail(rest),
    ensures
        after_host_ok(seq![':'] + port + rest),
{
    let r = seq![':'] + port + rest;
    assert(r.drop_first() =~= port + rest);
    lemma_digit_run_append(port, rest);
    if rest.len() > 0 {
        assert(r[port.len() + 1int] == rest[0]);
    }
}

/// A host of hyphenated labels, a dot and a domain ends in the domain after a label prefix,
/// and holds no character that ends a host; so does the domain alone.
proof fn lemma_labelled_host(domain: Seq<char>, labels: Seq<char>)
    requires
        dotted_labels(domain),
        hyphenated_labels(labels),
    ensures
        ({
            let host = labels + "."@ + domain;
            &&& host.len() >= domain.len()
            &&& host.skip(host.len() - domain.len()) == domain
            &&& label_prefix(host.take(host.len() - domain.len()))
            &&& forall|i: int| 0 <= i < host.len() ==> !host_end(#[trigger] host[i])
        }),
        domain.skip(0) == domain,
        label_prefix(domain.take(0)),
        forall|i: int| 0 <= i < domain.len() ==> !host_end(#[trigger] domain[i]),
{
    reveal_strlit(".");
    let host = labels + "."@ + domain;
    let prefix = labels + "."@;
    assert(host.skip(host.len() - domain.len()) =~= domain);
    assert(host.take(host.len() - domain.len()) =~= prefix);
    assert forall|i: int| 0 <= i < prefix.len() implies label_char(#[trigger] prefix[i]) || prefix[i] == '.' by {
        if i < labels.len() {
            assert(prefix[i] == labels[i]);
        }
    }
    assert forall|i: int| 0 <= i < prefix.len() - 1 implies !(#[trigger] prefix[i] == '.' && prefix[i + 1] == '.') by {
        if i + 1 < labels.len() {
            assert(prefix[i] == labels[i] && prefix[i + 1] == labels[i + 1]);
        } else {
            assert(prefix[i] == labels.last());
        }
    }
    assert(prefix[0] == labels[0]);
    assert(label_prefix(prefix));
    assert forall|i: int| 0 <= i < host.len() implies !host_end(#[trigger] host[i]) by {
        if i < labels.len() {
            assert(host[i] == labels[i]);
        } else if i > labels.len() {
            assert(host[i] == domain[i - labels.len() - 1]);
            assert(domain_char(domain[i - labels.len() - 1]));
        }
    }
    assert forall|i: int| 0 <= i < domain.len() implies !host_end(#[trigger] domain[i]) by {
        assert(domain_char(domain[i]));
    }
    assert(domain.skip(0) =~= domain);
    assert(domain.take(0) =~= Seq::<char>::empty());
}

/// Every host made of hyphenated labels, a dot and the domain lies in the domain's tree, over
/// `https` and `http`, with or without a path, query or fragment and with or without a numeric
/// port; so does the domain itself.
pub proof fn law_labelled_hosts_are_in_the_tree(domain: Seq<char>, labels: Seq<char>, port: Seq<char>, rest: Seq<char>)
    requires
        dotted_labels(domain),
        hyphenated_labels(labels),
        plain_tail(rest),
        port.len() > 0,
        forall|i: int| 0 <= i < port.len() ==> is_digit(#[trigger] port[i]),
    ensures
        in_domain_tree("https://"@ + (labels + "."@ + domain) + rest, domain),
        in_domain_tree("http://"@ + (labels + "."@ + domain) + rest, domain),
        in_domain_tree("https://"@ + domain + rest, domain),
        in_domain_tree("https://"@ + (labels + "."@ + domain) + (seq![':'] + port + rest), domain),
{
    reveal_strlit("https://");
    reveal_strlit("http://");
    lemma_labelled_host(domain, labels);
    let host = labels + "."@ + domain;
    let s = "https://"@;
    let p = "http://"@;
    assert((s + host + rest).take(8) =~= s);
    lemma_tree_member(s, host, domain, rest);
    assert((p + host + rest).take(7) =~= p);
    assert((p + host + rest).take(8)[4] != s[4]);
    lemma_tree_member(p, host, domain, rest);
    assert((s + domain + rest).take(8) =~= s);
    lemma_tree_member(s, domain, domain, rest);
    let tail = seq![':'] + port + rest;
    lemma_port_tail(port, rest);
    assert((s + host + tail).take(8) =~= s);
    lemma_tree_member(s, host, domain, tail);
}

} // verus!
