//! Caller-owned HTTPS evidence source URLs.

use vstd::prelude::*;

use crate::text::{chars_of, is_ascii_alnum, is_ascii_alnum_exec, is_space, is_space_exec};

verus! {

/// Characters allowed in a source host.
pub open spec fn host_char(c: char) -> bool {
    is_ascii_alnum(c) || c == '-' || c == '.'
}

/// The characters that end a host.
pub open spec fn host_end_char(c: char) -> bool {
    c == '/' || c == '?' || c == '#'
}

/// `https://` followed by a non-empty host of letters, digits, `-` and `.`, then nothing or a
/// path, query or fragment; no whitespace or control character anywhere.
pub open spec fn safe_source_text(s: Seq<char>) -> bool {
    &&& s.len() > 8
    &&& s.take(8) == "https://"@
    &&& forall|i: int| 0 <= i < s.len() ==> !is_space(#[trigger] s[i]) && (s[i] as u32) >= 0x20 && s[i] != '\x7F'
    &&& host_char(s[8])
    &&& forall|i: int| 8 <= i < s.len() && (forall|j: int| 8 <= j < i ==> !host_end_char(#[trigger] s[j])) ==> host_char(#[trigger] s[i]) || host_end_char(s[i])
}

/// A canonical HTTPS evidence source.
#[derive(Debug, PartialEq, Eq, Hash)]
pub struct SafeSourceUrl {
    text: String,
}

/// The text was not a safe HTTPS source URL.
#[derive(Clone, Copy, Debug, PartialEq, Eq, Structural)]
pub struct SourceUrlError;

impl View for SafeSourceUrl {
    type V = Seq<char>;

    closed spec fn view(&self) -> Seq<char> {
        self.text@
    }
}

impl Clone for SafeSourceUrl {
    fn clone(&self) -> (r: Self)
        ensures
            r@ == self@,
    {
        SafeSourceUrl { text: self.text.clone() }
    }
}

impl SafeSourceUrl {
    /// Accept an HTTPS URL with a plain host.
    pub fn parse(value: &str) -> (r: Result<SafeSourceUrl, SourceUrlError>)
        ensures
            r matches Ok(u) ==> u@ == value@ && safe_source_text(value@),
            r is Err ==> !safe_source_text(value@),
    {
        let chars = chars_of(value);
        let prefix = chars_of("https://");
        proof {
            reveal_strlit("https://");
        }
        if chars.len() <= 8 {
            return Err(SourceUrlError);
        }
        let mut i: usize = 0;
        while i < 8
            invariant
                i <= 8 < chars@.len(),
                chars@ == value@,
                prefix@ == "https://"@,
                prefix@.len() == 8,
                forall|k: int| 0 <= k < i ==> chars@[k] == prefix@[k],
            decreases 8 - i,
        {
            if chars[i] != prefix[i] {
                proof {
                    assert(chars@.take(8)[i as int] != prefix@[i as int]);
                }
                return Err(SourceUrlError);
            }
            i = i + 1;
        }
        proof {
            assert(chars@.take(8) =~= "https://"@);
        }
        let mut k: usize = 0;
        while k < chars.len()
            invariant
                k <= chars@.len(),
                chars@ == value@,
                forall|i: int| 0 <= i < k ==> !is_space(#[trigger] chars@[i]) && (chars@[i] as u32) >= 0x20 && chars@[i] != '\x7F',
            decreases chars@.len() - k,
        {
            let c = chars[k];
            if is_space_exec(c) || (c as u32) < 0x20 || c == '\x7F' {
                proof {
                    assert(!(!is_space(chars@[k as int]) && (chars@[k as int] as u32) >= 0x20 && chars@[k as int] != '\x7F'));
                }
                return Err(SourceUrlError);
            }
            k = k + 1;
        }
        if !(is_ascii_alnum_exec(chars[8]) || chars[8] == '-' || chars[8] == '.') {
            return Err(SourceUrlError);
        }
        let mut h: usize = 8;
        while h < chars.len() && !(chars[h] == '/' || chars[h] == '?' || chars[h] == '#')
            invariant
                8 <= h <= chars@.len(),
                chars@ == value@,
                forall|j: int| 8 <= j < h ==> host_char(#[trigger] chars@[j]),
            decreases chars@.len() - h,
        {
            if !(is_ascii_alnum_exec(chars[h]) || chars[h] == '-' || chars[h] == '.') {
                proof {
                    assert forall|j: int| 8 <= j < h implies !host_end_char(#[trigger] chars@[j]) by {
                        assert(host_char(chars@[j]));
                    }
                }
                return Err(SourceUrlError);
            }
            h = h + 1;
        }
        proof {
            assert forall|i: int| 8 <= i < chars@.len() && (forall|j: int| 8 <= j < i ==> !host_end_char(#[trigger] chars@[j])) implies host_char(#[trigger] chars@[i]) || host_end_char(chars@[i]) by {
                if i < h {
                } else if i > h {
                    assert(!host_end_char(chars@[h as int]));
                }
            }
        }
        Ok(SafeSourceUrl { text: value.to_owned() })
    }

    /// The URL text.
    pub fn as_str(&self) -> (s: &str)
        ensures
            s@ == self@,
    {
        self.text.as_str()
    }

    /// Whether two URLs are the same text.
    pub fn same_url(&self, other: &SafeSourceUrl) -> (r: bool)
        ensures
            r == (self@ == other@),
    {
        self.text == other.text
    }
}

} // verus!
