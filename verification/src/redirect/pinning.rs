//! Which host a probe pins, to which kind of address, and where a redirect leads.

use vstd::prelude::*;
use crate::error::AgyError;
use crate::http_url::{authority_len, http_url_text, HttpUrl};
use crate::text::{chars_of, push_chars, slice_chars, starts_with, starts_with_chars, string_from_chars};

verus! {

/// `a` before its last colon (empty where it has none).
pub open spec fn before_last_colon(a: Seq<char>) -> Seq<char>
    decreases a.len(),
{
    if a.len() == 0 {
        a
    } else if a.last() == ':' {
        a.drop_last()
    } else {
        before_last_colon(a.drop_last())
    }
}

/// The authority of an `https://` URL: what follows the scheme up to the path, query or fragment.
pub open spec fn https_authority(s: Seq<char>) -> Seq<char> {
    s.skip(8).take(authority_len(s.skip(8)) as int)
}

/// The host an HTTPS URL names: its authority without a port, where the authority is not empty
/// and holds no user information.
pub open spec fn host_of(s: Seq<char>) -> Option<Seq<char>> {
    if !starts_with(s, "https://"@) {
        None
    } else {
        let a = https_authority(s);
        if a.len() == 0 || a.contains('@') {
            None
        } else if a.contains(':') {
            Some(before_last_colon(a))
        } else {
            Some(a)
        }
    }
}

/// The authority of an HTTPS URL, as characters.
fn https_authority_chars(chars: &Vec<char>) -> (a: Vec<char>)
    requires
        http_url_text(chars@),
        starts_with(chars@, "https://"@),
    ensures
        a@ == https_authority(chars@),
{
    proof {
        reveal_strlit("https://");
    }
    let end = HttpUrl::origin_len_of(chars);
    proof {
        assert(crate::http_url::scheme_len(chars@) == 8);
    }
    let a = slice_chars(chars, 8, end);
    proof {
        assert(a@ =~= chars@.skip(8).take(authority_len(chars@.skip(8)) as int));
    }
    a
}

impl HttpUrl {
    /// The host an HTTPS URL names, if it names one a probe can pin.
    pub fn https_host(&self) -> (h: Option<String>)
        ensures
            match h {
                Some(t) => host_of(self@) == Some(t@),
                None => host_of(self@) is None,
            },
    {
        proof {
            reveal_strlit("https://");
        }
        let chars = chars_of(self.as_str());
        if !starts_with_chars(chars.as_slice(), chars_of("https://").as_slice()) {
            return None;
        }
        let a = https_authority_chars(&chars);
        let mut has_at = false;
        let mut has_colon = false;
        let mut i: usize = 0;
        while i < a.len()
            invariant
                i <= a@.len(),
                has_at == (exists|k: int| 0 <= k < i && a@[k] == '@'),
                has_colon == (exists|k: int| 0 <= k < i && a@[k] == ':'),
            decreases a@.len() - i,
        {
            if a[i] == '@' {
                has_at = true;
            }
            if a[i] == ':' {
                has_colon = true;
            }
            i = i + 1;
        }
        proof {
            assert(has_at == a@.contains('@'));
            assert(has_colon == a@.contains(':'));
        }
        if a.len() == 0 || has_at {
            return None;
        }
        if !has_colon {
            return Some(string_from_chars(a.as_slice()));
        }
        let mut j = a.len();
        proof {
            assert(a@.take(j as int) =~= a@);
        }
        while j > 0 && a[j - 1] != ':'
            invariant
                j <= a@.len(),
                before_last_colon(a@) == before_last_colon(a@.take(j as int)),
                a@.contains(':'),
                forall|k: int| j <= k < a@.len() ==> a@[k] != ':',
            decreases j,
        {
            proof {
                assert(a@.take(j as int).drop_last() =~= a@.take(j - 1));
                assert(a@.take(j as int).last() == a@[j - 1]);
            }
            j = j - 1;
        }
        if j == 0 {
            proof {
                let k = choose|k: int| 0 <= k < a@.len() && a@[k] == ':';
                assert(a@[k] != ':');
            }
            return None;
        }
        proof {
            assert(a@.take(j as int).last() == ':');
            assert(a@.take(j as int).drop_last() =~= a@.take(j - 1));
        }
        Some(string_from_chars(slice_chars(&a, 0, j - 1).as_slice()))
    }
}

/// Where a redirect's location leads from `current`: an absolute HTTPS location stands as it
/// is, and an absolute path replaces the current HTTPS URL's path, query and fragment.
pub open spec fn redirect_target(current: Seq<char>, location: Seq<char>) -> Option<Seq<char>> {
    if starts_with(location, "https://"@) {
        Some(location)
    } else if location.len() >= 1 && location[0] == '/' && !(location.len() >= 2 && location[1] == '/')
        && starts_with(current, "https://"@) {
        Some("https://"@ + https_authority(current) + location)
    } else {
        None
    }
}

/// Follow a redirect's location from `current`.
pub fn join_redirect(current: &HttpUrl, location: &str) -> (r: Result<HttpUrl, AgyError>)
    ensures
        match redirect_target(current@, location@) {
            Some(t) => (r is Ok <==> http_url_text(t)) && (r matches Ok(u) ==> u@ == t),
            None => r is Err,
        },
        r matches Err(e) ==> e == AgyError::OutputInvalid,
{
    proof {
        reveal_strlit("https://");
    }
    let scheme = chars_of("https://");
    let loc = chars_of(location);
    if starts_with_chars(loc.as_slice(), scheme.as_slice()) {
        return match HttpUrl::parse(location) {
            Ok(u) => Ok(u),
            Err(_) => Err(AgyError::OutputInvalid),
        };
    }
    let cur = chars_of(current.as_str());
    if !(loc.len() >= 1 && loc[0] == '/' && !(loc.len() >= 2 && loc[1] == '/'))
        || !starts_with_chars(cur.as_slice(), scheme.as_slice()) {
        return Err(AgyError::OutputInvalid);
    }
    let authority = https_authority_chars(&cur);
    let mut text = chars_of("https://");
    push_chars(&mut text, authority.as_slice());
    push_chars(&mut text, loc.as_slice());
    let joined = string_from_chars(text.as_slice());
    proof {
        assert(joined@ =~= "https://"@ + https_authority(current@) + location@);
    }
    match HttpUrl::parse(joined.as_str()) {
        Ok(u) => Ok(u),
        Err(_) => Err(AgyError::OutputInvalid),
    }
}

/// An IPv4 address a probe may reach: not private, loopback, link-local, unspecified or the
/// broadcast address.
pub open spec fn public_ipv4_spec(o: Seq<u8>) -> bool {
    !(o[0] == 10 || (o[0] == 172 && 16 <= o[1] <= 31) || (o[0] == 192 && o[1] == 168) || o[0] == 127
        || (o[0] == 169 && o[1] == 254) || (o[0] == 0 && o[1] == 0 && o[2] == 0 && o[3] == 0)
        || (o[0] == 255 && o[1] == 255 && o[2] == 255 && o[3] == 255))
}

/// Whether an IPv4 address, by its octets, may be reached.
pub fn public_ipv4(o: [u8; 4]) -> (r: bool)
    ensures
        r == public_ipv4_spec(o@),
{
    !(o[0] == 10 || (o[0] == 172 && 16 <= o[1] && o[1] <= 31) || (o[0] == 192 && o[1] == 168) || o[0] == 127
        || (o[0] == 169 && o[1] == 254) || (o[0] == 0 && o[1] == 0 && o[2] == 0 && o[3] == 0)
        || (o[0] == 255 && o[1] == 255 && o[2] == 255 && o[3] == 255))
}

/// An IPv6 address a probe may reach: not loopback, unspecified, unique-local (`fc00::/7`) or
/// link-local (`fe80::/10`).
pub open spec fn public_ipv6_spec(s: Seq<u16>) -> bool {
    let zero_head = s[0] == 0 && s[1] == 0 && s[2] == 0 && s[3] == 0 && s[4] == 0 && s[5] == 0 && s[6] == 0;
    !((zero_head && (s[7] == 0 || s[7] == 1)) || (s[0] & 0xfe00u16) == 0xfc00u16 || (s[0] & 0xffc0u16) == 0xfe80u16)
}

/// Whether an IPv6 address, by its segments, may be reached.
pub fn public_ipv6(s: [u16; 8]) -> (r: bool)
    ensures
        r == public_ipv6_spec(s@),
{
    let zero_head = s[0] == 0 && s[1] == 0 && s[2] == 0 && s[3] == 0 && s[4] == 0 && s[5] == 0 && s[6] == 0;
    !((zero_head && (s[7] == 0 || s[7] == 1)) || (s[0] & 0xfe00u16) == 0xfc00u16 || (s[0] & 0xffc0u16) == 0xfe80u16)
}

} // verus!
