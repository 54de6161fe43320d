//! The URL patterns a restricted answer's schema allows.

use vstd::prelude::*;
use crate::text::{chars_of, push_chars, string_from_chars};

verus! {

/// The pattern of an exact Google grounding transport URL.
pub const GROUNDING_TRANSPORT_PATTERN: &'static str =
    "^https://vertexaisearch\\.cloud\\.google\\.com/grounding-api-redirect/[^\\s]+$";

/// `s` with every `.` escaped for a regular expression.
pub open spec fn escape_dots(s: Seq<char>) -> Seq<char>
    decreases s.len(),
{
    if s.len() == 0 {
        Seq::empty()
    } else {
        escape_dots(s.drop_last()) + if s.last() == '.' {
            seq!['\\', '.']
        } else {
            seq![s.last()]
        }
    }
}

/// The pattern of a URL in the domain tree of `domain`: any subdomain, an optional port, then a
/// path, query, fragment or nothing.
pub open spec fn domain_pattern_text(domain: Seq<char>) -> Seq<char> {
    "^https?://(?:[A-Za-z0-9-]+\\.)*"@ + escape_dots(domain) + "(?::[0-9]+)?(?:[/?#]|$)"@
}

/// The pattern of a URL in the domain tree of `domain`.
pub fn domain_pattern(domain: &str) -> (p: String)
    ensures
        p@ == domain_pattern_text(domain@),
{
    let d = chars_of(domain);
    let mut out = chars_of("^https?://(?:[A-Za-z0-9-]+\\.)*");
    let ghost start = out@;
    let mut i: usize = 0;
    while i < d.len()
        invariant
            i <= d@.len(),
            out@ == start + escape_dots(d@.take(i as int)),
        decreases d@.len() - i,
    {
        proof {
            assert(d@.take(i + 1).drop_last() =~= d@.take(i as int));
            assert(d@.take(i + 1).last() == d@[i as int]);
        }
        let ghost before = out@;
        if d[i] == '.' {
            out.push('\\');
            out.push('.');
            proof {
                assert(out@ =~= before + seq!['\\', '.']);
            }
        } else {
            out.push(d[i]);
            proof {
                assert(out@ =~= before + seq![d@[i as int]]);
            }
        }
        i = i + 1;
    }
    proof {
        assert(d@.take(i as int) =~= d@);
    }
    push_chars(&mut out, chars_of("(?::[0-9]+)?(?:[/?#]|$)").as_slice());
    proof {
        assert(out@ =~= domain_pattern_text(domain@));
    }
    string_from_chars(out.as_slice())
}

} // verus!
