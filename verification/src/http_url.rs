//! HTTP(S) URLs named by tools and responses, and how they reach a publisher.

use vstd::prelude::*;

use crate::text::{
    chars_of, is_ascii_alnum, is_ascii_alnum_exec, is_space, is_space_exec, starts_with,
    starts_with_chars, };

verus! {

/// The prefix of a Google grounding transport URL.
pub open spec fn grounding_prefix() -> Seq<char> {
    "https://vertexaisearch.cloud.google.com/grounding-api-redirect/"@
}

/// A character that may stand in a URL: no whitespace and no control character.
pub open spec fn url_char(c: char) -> bool {
    !is_space(c) && (c as u32) >= 0x20 && c != '\x7F'
}

/// The length of the `http://` or `https://` scheme that `s` starts with, or 0.
pub open spec fn scheme_len(s: Seq<char>) -> int {
    if starts_with(s, "https://"@) {
        8
    } else if starts_with(s, "http://"@) {
        7
    } else {
        0
    }
}

/// An HTTP(S) URL: an `http://` or `https://` scheme, a host that starts with an ASCII letter
/// or digit, and no whitespace or control character anywhere.
pub open spec fn http_url_text(s: Seq<char>) -> bool {
    &&& scheme_len(s) > 0
    &&& s.len() > scheme_len(s)
    &&& is_ascii_alnum(s[scheme_len(s)])
    &&& forall|i: int| 0 <= i < s.len() ==> url_char(#[trigger] s[i])
}

/// How a URL reaches its publisher.
#[derive(Clone, Copy, Debug, PartialEq, Eq, Structural)]
pub enum SourceUrlKind {
    Direct,
    GroundingRedirect,
}

/// A grounding transport: the Google redirect prefix followed by a token.
pub open spec fn url_kind(s: Seq<char>) -> SourceUrlKind {
    if starts_with(s, grounding_prefix()) && s.len() > grounding_prefix().len() {
        SourceUrlKind::GroundingRedirect
    } else {
        SourceUrlKind::Direct
    }
}

/// An HTTP(S) URL, kept as written.
#[derive(Debug, PartialEq, Eq, Hash)]
pub struct HttpUrl {
    text: String,
}

impl View for HttpUrl {
    type V = Seq<char>;

    closed spec fn view(&self) -> Seq<char> {
        self.text@
    }
}

impl Clone for HttpUrl {
    fn clone(&self) -> (r: Self)
        ensures
            r@ == self@,
    {
        proof {
            use_type_invariant(self);
        }
        HttpUrl { text: self.text.clone() }
    }
}

/// The URL scheme `value` starts with, as a length.
fn scheme_len_exec(value: &[char]) -> (n: usize)
    ensures
        n == scheme_len(value@),
{
    proof {
        reveal_strlit("https://");
        reveal_strlit("http://");
    }
    let https = chars_of("https://");
    let http = chars_of("http://");
    if starts_with_chars(value, https.as_slice()) {
        8
    } else if starts_with_chars(value, http.as_slice()) {
        7
    } else {
        0
    }
}

impl HttpUrl {
    #[verifier::type_invariant]
    closed spec fn well_formed(self) -> bool {
        http_url_text(self.text@)
    }

    /// Accept an HTTP(S) URL.
    pub fn parse(value: &str) -> (r: Result<HttpUrl, &'static str>)
        ensures
            match r {
                Ok(u) => u@ == value@ && http_url_text(value@),
                Err(m) => !http_url_text(value@) && m@ == "invalid HTTP URL"@,
            },
    {
        let chars = chars_of(value);
        let scheme = scheme_len_exec(chars.as_slice());
        if scheme == 0 || chars.len() <= scheme || !is_ascii_alnum_exec(chars[scheme]) {
            return Err("invalid HTTP URL");
        }
        let mut i: usize = 0;
        while i < chars.len()
            invariant
                i <= chars@.len(),
                chars@ == value@,
                forall|k: int| 0 <= k < i ==> url_char(#[trigger] chars@[k]),
            decreases chars@.len() - i,
        {
            let c = chars[i];
            if is_space_exec(c) || (c as u32) < 0x20 || c == '\x7F' {
                proof {
                    assert(!url_char(chars@[i as int]));
                }
                return Err("invalid HTTP URL");
            }
            i = i + 1;
        }
        Ok(HttpUrl { text: value.to_owned() })
    }

    /// The URL text.
    pub fn as_str(&self) -> (s: &str)
        ensures
            s@ == self@,
            http_url_text(s@),
    {
        proof {
            use_type_invariant(self);
        }
        self.text.as_str()
    }

    /// Whether two URLs are the same text.
    pub fn same_url(&self, other: &HttpUrl) -> (r: bool)
        ensures
            r == (self@ == other@),
    {
        self.text == other.text
    }

    /// Whether the URL is a grounding transport or a direct publisher URL.
    pub fn source_kind(&self) -> (k: SourceUrlKind)
        ensures
            k == url_kind(self@),
    {
        let chars = chars_of(self.text.as_str());
        let prefix = chars_of("https://vertexaisearch.cloud.google.com/grounding-api-redirect/");
        if starts_with_chars(chars.as_slice(), prefix.as_slice()) && chars.len() > prefix.len() {
            SourceUrlKind::GroundingRedirect
        } else {
            SourceUrlKind::Direct
        }
    }
}

} // verus!

verus! {

/// Whether `c` ends the authority of a URL.
pub open spec fn ends_authority(c: char) -> bool {
    c == '/' || c == '?' || c == '#'
}

/// The length of the authority (host and port) at the start of `s`.
pub open spec fn authority_len(s: Seq<char>) -> nat
    decreases s.len(),
{
    if s.len() == 0 || ends_authority(s[0]) {
        0
    } else {
        1 + authority_len(s.drop_first())
    }
}

/// A URL's origin: its scheme and authority.
pub open spec fn origin(s: Seq<char>) -> Seq<char> {
    s.take(scheme_len(s) + authority_len(s.skip(scheme_len(s))))
}

/// The authority can be counted from any point on.
proof fn lemma_authority_step(s: Seq<char>, i: int)
    requires
        0 <= i < s.len(),
        !ends_authority(s[i]),
    ensures
        authority_len(s.skip(i)) == 1 + authority_len(s.skip(i + 1)),
{
    assert(s.skip(i).drop_first() =~= s.skip(i + 1));
}

impl HttpUrl {
    /// The length of the URL's origin.
    pub fn origin_len_of(chars: &Vec<char>) -> (n: usize)
        requires
            http_url_text(chars@),
        ensures
            n == scheme_len(chars@) + authority_len(chars@.skip(scheme_len(chars@))),
            n <= chars@.len(),
    {
        let start = scheme_len_exec(chars.as_slice());
        let mut i = start;
        proof {
            assert(scheme_len(chars@) <= chars@.len()) by {
                reveal_strlit("https://");
                reveal_strlit("http://");
            }
        }
        while i < chars.len() && !(chars[i] == '/' || chars[i] == '?' || chars[i] == '#')
            invariant
                start == scheme_len(chars@),
                start <= i <= chars@.len(),
                authority_len(chars@.skip(start as int)) == (i - start) + authority_len(chars@.skip(i as int)),
            decreases chars@.len() - i,
        {
            proof {
                lemma_authority_step(chars@, i as int);
            }
            i = i + 1;
        }
        proof {
            if i < chars@.len() {
                assert(chars@.skip(i as int)[0] == chars@[i as int]);
            } else {
                assert(chars@.skip(i as int).len() == 0);
            }
        }
        i
    }

    /// Whether two URLs share scheme and authority.
    pub fn same_origin(&self, other: &HttpUrl) -> (r: bool)
        ensures
            r == (origin(self@) == origin(other@)),
    {
        proof {
            use_type_invariant(self);
            use_type_invariant(other);
        }
        let a = chars_of(self.text.as_str());
        let b = chars_of(other.text.as_str());
        let n = HttpUrl::origin_len_of(&a);
        let m = HttpUrl::origin_len_of(&b);
        if n != m {
            proof {
                assert(origin(self@).len() != origin(other@).len());
            }
            return false;
        }
        let mut i: usize = 0;
        while i < n
            invariant
                n == m,
                n <= a@.len(),
                n <= b@.len(),
                a@ == self@,
                b@ == other@,
                origin(self@) == a@.take(n as int),
                origin(other@) == b@.take(n as int),
                i <= n,
                forall|k: int| 0 <= k < i ==> a@[k] == b@[k],
            decreases n - i,
        {
            if a[i] != b[i] {
                proof {
                    assert(origin(self@)[i as int] != origin(other@)[i as int]);
                }
                return false;
            }
            i = i + 1;
        }
        proof {
            assert(origin(self@) =~= origin(other@));
        }
        true
    }
}

} // verus!
