//! Parsing of one probed redirect hop.

use vstd::prelude::*;
use vstd::utf8::{decode_utf8, valid_utf8};
use crate::error::AgyError;
use crate::source_document_html::element_name::same_name;
use crate::text::{
    is_digit, is_digit_exec, lemma_run_to_bound,
    ascii_words, ascii_words_of, chars_of, eq_ignore_ascii_case, fields,
    fields_of, is_space, is_space_exec, parse_unsigned, parse_unsigned_exec, run_len, run_to,
    slice_chars, split_on, split_str, string_from_utf8, trim, trim_chars, trim_end,
    trim_end_chars, views, lemma_run_len_at,
};

verus! {

/// The class of an HTTP status code.
#[derive(Clone, Copy, Debug, PartialEq, Eq, Structural)]
pub enum HttpStatus {
    Informational,
    Success,
    Redirect,
    Other,
}

/// The class of a status code: 1xx, 2xx, 3xx, or anything else.
pub open spec fn status_class(value: u16) -> HttpStatus {
    if 100 <= value <= 199 {
        HttpStatus::Informational
    } else if 200 <= value <= 299 {
        HttpStatus::Success
    } else if 300 <= value <= 399 {
        HttpStatus::Redirect
    } else {
        HttpStatus::Other
    }
}

impl HttpStatus {
    /// Classify a status code.
    pub fn parse(value: u16) -> (r: HttpStatus)
        ensures
            r == status_class(value),
    {
        if 100 <= value && value <= 199 {
            HttpStatus::Informational
        } else if 200 <= value && value <= 299 {
            HttpStatus::Success
        } else if 300 <= value && value <= 399 {
            HttpStatus::Redirect
        } else {
            HttpStatus::Other
        }
    }
}

} // verus!

verus! {

/// The line curl writes after the headers, before the status and redirect count.
pub open spec fn sentinel_bytes() -> Seq<u8> {
    seq![10u8, 65u8, 71u8, 89u8, 95u8, 82u8, 69u8, 68u8, 73u8, 82u8, 69u8, 67u8, 84u8, 95u8, 77u8, 69u8, 84u8, 65u8, 58u8]
}

/// The sentinel, `\nAGY_REDIRECT_META:`.
fn sentinel() -> (v: Vec<u8>)
    ensures
        v@ == sentinel_bytes(),
{
    let v = vec![10u8, 65u8, 71u8, 89u8, 95u8, 82u8, 69u8, 68u8, 73u8, 82u8, 69u8, 67u8, 84u8, 95u8, 77u8, 69u8, 84u8, 65u8, 58u8];
    proof {
        assert(v@ =~= sentinel_bytes());
    }
    v
}

/// The sentinel starts at `m` in `b`.
pub open spec fn sentinel_at(b: Seq<u8>, m: int) -> bool {
    0 <= m && m + sentinel_bytes().len() <= b.len() && b.subrange(m, m + sentinel_bytes().len()) == sentinel_bytes()
}

/// `m` is the last sentinel of `b` and the headers before it hold none.
pub open spec fn marker_at(b: Seq<u8>, m: int) -> bool {
    &&& sentinel_at(b, m)
    &&& forall|j: int| m < j ==> !#[trigger] sentinel_at(b, j)
    &&& forall|j: int| j + sentinel_bytes().len() <= m ==> !#[trigger] sentinel_at(b, j)
}

/// A probed hop: its status class and its `Location`, if any.
pub struct HopView {
    pub status: HttpStatus,
    pub location: Option<Seq<char>>,
}

/// The response of one probed hop.
#[derive(Debug)]
pub struct HopResponse {
    pub status: HttpStatus,
    pub location: Option<String>,
}

impl View for HopResponse {
    type V = HopView;

    open spec fn view(&self) -> HopView {
        HopView {
            status: self.status,
            location: match self.location {
                Some(l) => Some(l@),
                None => None,
            },
        }
    }
}

/// The metadata line: valid UTF-8 that, without trailing white space, is a `u16` status and a
/// `u32` redirect count separated by one colon.
pub open spec fn metadata_outcome(meta: Seq<u8>) -> Option<(nat, nat)> {
    if !valid_utf8(meta) {
        None
    } else {
        let f = fields(trim_end(decode_utf8(meta)), ':');
        if f.len() != 2 {
            None
        } else {
            match (parse_unsigned(f[0], 65535), parse_unsigned(f[1], 4294967295)) {
                (Some(status), Some(count)) => Some((status, count)),
                _ => None,
            }
        }
    }
}

/// Parse the metadata line into the status and the redirect count.
pub fn parse_metadata(metadata: &[u8]) -> (r: Result<(u16, u32), AgyError>)
    ensures
        match metadata_outcome(metadata@) {
            Some((status, count)) => r == Ok::<(u16, u32), AgyError>((status as u16, count as u32)),
            None => r == Err::<(u16, u32), AgyError>(AgyError::OutputInvalid),
        },
{
    let text = match string_from_utf8(metadata) {
        Some(t) => t,
        None => {
            return Err(AgyError::OutputInvalid);
        },
    };
    let trimmed = trim_end_chars(&chars_of(text.as_str()));
    let f = fields_of(&trimmed, ':');
    if f.len() != 2 {
        return Err(AgyError::OutputInvalid);
    }
    proof {
        assert(f@[0]@ == views(f@)[0]);
        assert(f@[1]@ == views(f@)[1]);
    }
    let status = match parse_unsigned_exec(&f[0], 65535) {
        Some(v) => v,
        None => {
            return Err(AgyError::OutputInvalid);
        },
    };
    let count = match parse_unsigned_exec(&f[1], 4294967295) {
        Some(v) => v,
        None => {
            return Err(AgyError::OutputInvalid);
        },
    };
    Ok((status as u16, count as u32))
}

/// Every character is an ASCII digit or a dot.
pub open spec fn version_text(v: Seq<char>) -> bool {
    v.len() > 0 && forall|i: int| 0 <= i < v.len() ==> (is_digit(#[trigger] v[i]) || v[i] == '.')
}

/// The `Location` a run of header lines names: each line is `name:value`, and a `Location`
/// line (in any letter case) has a non-blank trimmed value and stands once.
pub open spec fn header_location(lines: Seq<Seq<char>>) -> Option<Option<Seq<char>>>
    decreases lines.len(),
{
    if lines.len() == 0 {
        Some(None)
    } else {
        match header_location(lines.drop_last()) {
            None => None,
            Some(location) => {
                let line = lines.last();
                let n = run_to(line, ':');
                if n >= line.len() {
                    None
                } else if eq_ignore_ascii_case(line.take(n as int), "location"@) {
                    let value = trim(line.skip(n + 1 as int));
                    if value.len() == 0 || location is Some {
                        None
                    } else {
                        Some(Some(value))
                    }
                } else {
                    Some(location)
                }
            },
        }
    }
}

/// An error in the first lines is an error of all of them.
proof fn lemma_location_prefix(t: Seq<Seq<char>>, k: int)
    requires
        0 <= k <= t.len(),
        header_location(t.take(k)) is None,
    ensures
        header_location(t) is None,
    decreases t.len() - k,
{
    if t.len() > k {
        assert(t.drop_last().take(k) =~= t.take(k));
        lemma_location_prefix(t.drop_last(), k);
    } else {
        assert(t.take(k) =~= t);
    }
}

/// A header block: a status line `HTTP/<version> <code> ...` with a version of digits and dots
/// and a `u16` code, then header lines.
pub open spec fn header_block(block: Seq<char>) -> Option<HopView> {
    let lines = split_str(block, "\r\n"@);
    let first = lines[0];
    if !(first.len() >= 5 && first.take(5) == "HTTP/"@) {
        None
    } else {
        let rest = first.skip(5);
        let k = run_len(rest, |c: char| !is_space(c));
        if k >= rest.len() || !version_text(rest.take(k as int)) {
            None
        } else {
            let words = ascii_words(rest.skip(k + 1 as int));
            if words.len() == 0 {
                None
            } else {
                match (parse_unsigned(words[0], 65535), header_location(lines.skip(1))) {
                    (Some(code), Some(location)) => Some(HopView { status: status_class(code as u16), location }),
                    _ => None,
                }
            }
        }
    }
}

/// Whether the first `k` characters are a version: digits and dots, at least one.
fn version_ok(rest: &Vec<char>, k: usize) -> (r: bool)
    requires
        k <= rest@.len(),
    ensures
        r == version_text(rest@.take(k as int)),
{
    if k == 0 {
        return false;
    }
    let mut v: usize = 0;
    while v < k
        invariant
            k <= rest@.len(),
            v <= k,
            forall|t: int| 0 <= t < v ==> (is_digit(#[trigger] rest@[t]) || rest@[t] == '.'),
        decreases k - v,
    {
        if !(is_digit_exec(rest[v]) || rest[v] == '.') {
            proof {
                assert(rest@.take(k as int)[v as int] == rest@[v as int]);
            }
            return false;
        }
        v = v + 1;
    }
    proof {
        assert forall|t: int| 0 <= t < k implies (is_digit(#[trigger] rest@.take(k as int)[t]) || rest@.take(k as int)[t] == '.') by {
            assert(rest@.take(k as int)[t] == rest@[t]);
        }
    }
    true
}

/// Whether `line` names a `Location` header.
fn is_location(name: &Vec<char>) -> (r: bool)
    ensures
        r == eq_ignore_ascii_case(name@, "location"@),
{
    let location = chars_of("location");
    same_name(name.as_slice(), location.as_slice())
}

/// Parse one header block.
pub fn parse_header_block(block: &Vec<char>) -> (r: Result<HopResponse, AgyError>)
    ensures
        match header_block(block@) {
            Some(h) => r matches Ok(resp) && resp@ == h,
            None => r == Err::<HopResponse, AgyError>(AgyError::OutputInvalid),
        },
{
    proof {
        reveal_strlit("\r\n");
        reveal_strlit("HTTP/");
    }
    let lines = split_on(block, &chars_of("\r\n"));
    let ghost lv = views(lines@);
    proof {
        assert(lv[0] == lines@[0]@);
    }
    let first = &lines[0];
    let prefix = chars_of("HTTP/");
    if !(first.len() >= 5 && crate::text::starts_with_chars(first.as_slice(), prefix.as_slice())) {
        proof {
            if first@.len() >= 5 {
                assert(first@.take(5) != "HTTP/"@) by {
                    if first@.take(5) == "HTTP/"@ {
                        assert(crate::text::starts_with(first@, prefix@));
                    }
                }
            }
        }
        return Err(AgyError::OutputInvalid);
    }
    proof {
        assert(first@.take(5) =~= "HTTP/"@);
    }
    let rest = slice_chars(first, 5, first.len());
    proof {
        assert(rest@ =~= first@.skip(5));
    }
    let mut k: usize = 0;
    while k < rest.len() && !is_space_exec(rest[k])
        invariant
            k <= rest@.len(),
            forall|t: int| 0 <= t < k ==> !is_space(#[trigger] rest@[t]),
        decreases rest@.len() - k,
    {
        k = k + 1;
    }
    proof {
        lemma_run_len_at(rest@, |c: char| !is_space(c), k as int);
    }
    if k >= rest.len() {
        return Err(AgyError::OutputInvalid);
    }
    if !version_ok(&rest, k) {
        return Err(AgyError::OutputInvalid);
    }
    let remainder = slice_chars(&rest, k + 1, rest.len());
    proof {
        assert(remainder@ =~= rest@.skip(k + 1));
    }
    let words = ascii_words_of(&remainder);
    if words.len() == 0 {
        return Err(AgyError::OutputInvalid);
    }
    proof {
        assert(words@[0]@ == views(words@)[0]);
    }
    let code = match parse_unsigned_exec(&words[0], 65535) {
        Some(c) => c,
        None => {
            return Err(AgyError::OutputInvalid);
        },
    };
    let status = HttpStatus::parse(code as u16);
    proof {
        assert(header_block(block@) == match header_location(lv.skip(1)) {
            Some(location) => Some(HopView { status, location }),
            None => None::<HopView>,
        });
    }
    let mut location: Option<String> = None;
    let mut i: usize = 1;
    proof {
        assert(lv.skip(1).take(0) =~= Seq::<Seq<char>>::empty());
    }
    while i < lines.len()
        invariant
            lv == views(lines@),
            lv.len() == lines@.len(),
            header_block(block@) == match header_location(lv.skip(1)) {
                Some(location) => Some(HopView { status, location }),
                None => None::<HopView>,
            },
            1 <= i <= lines@.len(),
            header_location(lv.skip(1).take(i - 1)) == Some(match location {
                Some(l) => Some(l@),
                None => None::<Seq<char>>,
            }),
        decreases lines@.len() - i,
    {
        let line = &lines[i];
        proof {
            assert(lv[i as int] == line@);
            assert(lv.skip(1).take(i as int).drop_last() =~= lv.skip(1).take(i - 1));
            assert(lv.skip(1).take(i as int).last() == line@);
        }
        let n = crate::text::scan_to(line, 0, ':');
        proof {
            assert(line@.skip(0) =~= line@);
        }
        proof {
            crate::text::lemma_run_to_bound(line@, ':');
        }
        if n >= line.len() {
            proof {
                lemma_location_prefix(lv.skip(1), i as int);
            }
            return Err(AgyError::OutputInvalid);
        }
        let name = slice_chars(line, 0, n);
        proof {
            assert(name@ =~= line@.take(n as int));
        }
        if is_location(&name) {
            let raw = slice_chars(line, n + 1, line.len());
            proof {
                assert(raw@ =~= line@.skip(n + 1));
            }
            let value = trim_chars(&raw);
            if value.len() == 0 || location.is_some() {
                proof {
                    lemma_location_prefix(lv.skip(1), i as int);
                }
                return Err(AgyError::OutputInvalid);
            }
            location = Some(crate::text::string_from_chars(value.as_slice()));
        }
        i = i + 1;
    }
    proof {
        assert(lv.skip(1).take(i - 1) =~= lv.skip(1));
        assert(lines@.len() == lv.len());
    }
    Ok(HopResponse { status, location })
}

/// The response of the hop the header blocks end with: empty blocks are skipped, an interim
/// 1xx block without `Location` is passed over, and exactly one final block stands.
pub open spec fn select_final(blocks: Seq<Seq<char>>) -> Option<Option<HopView>>
    decreases blocks.len(),
{
    if blocks.len() == 0 {
        Some(None)
    } else {
        match select_final(blocks.drop_last()) {
            None => None,
            Some(previous) => {
                let block = blocks.last();
                if block.len() == 0 {
                    Some(previous)
                } else {
                    match header_block(block) {
                        None => None,
                        Some(h) => if h.status == HttpStatus::Informational {
                            if h.location is None {
                                Some(previous)
                            } else {
                                None
                            }
                        } else if previous is Some {
                            None
                        } else {
                            Some(Some(h))
                        },
                    }
                }
            },
        }
    }
}

/// An error in the first blocks is an error of all of them.
proof fn lemma_final_prefix(t: Seq<Seq<char>>, k: int)
    requires
        0 <= k <= t.len(),
        select_final(t.take(k)) is None,
    ensures
        select_final(t) is None,
    decreases t.len() - k,
{
    if t.len() > k {
        assert(t.drop_last().take(k) =~= t.take(k));
        lemma_final_prefix(t.drop_last(), k);
    } else {
        assert(t.take(k) =~= t);
    }
}

/// What probing one hop gave: the headers before the last sentinel hold no other sentinel, the
/// metadata after it names no followed redirect, the headers are UTF-8 whose blocks end in one
/// final response, and that response's class is the class of the status curl reported.
pub open spec fn hop_outcome(output: Seq<u8>) -> Option<HopView> {
    if !exists|m: int| marker_at(output, m) {
        None
    } else {
        let m = choose|m: int| marker_at(output, m);
        match metadata_outcome(output.skip(m + sentinel_bytes().len())) {
            None => None,
            Some((status, count)) => if count != 0 || !valid_utf8(output.take(m)) {
                None
            } else {
                match select_final(split_str(decode_utf8(output.take(m)), "\r\n\r\n"@)) {
                    Some(Some(h)) => if h.status == status_class(status as u16) {
                        Some(h)
                    } else {
                        None
                    },
                    _ => None,
                }
            },
        }
    }
}

/// Whether the sentinel starts at `m`.
fn sentinel_at_exec(b: &[u8], s: &Vec<u8>, m: usize) -> (r: bool)
    requires
        s@ == sentinel_bytes(),
    ensures
        r == sentinel_at(b@, m as int),
{
    if m > b.len() || s.len() > b.len() - m {
        return false;
    }
    let mut j: usize = 0;
    while j < s.len()
        invariant
            s@ == sentinel_bytes(),
            m + s@.len() <= b@.len(),
            b.len() == b@.len(),
            j <= s@.len(),
            forall|t: int| 0 <= t < j ==> b@[m + t] == s@[t],
        decreases s@.len() - j,
    {
        if b[m + j] != s[j] {
            proof {
                assert(b@.subrange(m as int, m + s@.len())[j as int] != s@[j as int]);
            }
            return false;
        }
        j = j + 1;
    }
    proof {
        assert(b@.subrange(m as int, m + s@.len()) =~= s@);
    }
    true
}

/// The marker: the last sentinel, with none in the headers before it.
fn find_marker(output: &[u8]) -> (r: Option<usize>)
    ensures
        match r {
            Some(m) => marker_at(output@, m as int),
            None => !exists|m: int| marker_at(output@, m),
        },
{
    let s = sentinel();
    let n = s.len();
    if output.len() < n {
        return None;
    }
    let mut m = output.len() - n + 1;
    while m > 0 && !sentinel_at_exec(output, &s, m - 1)
        invariant
            s@ == sentinel_bytes(),
            n == s@.len(),
            m <= output@.len() - n + 1,
            forall|j: int| m <= j ==> !#[trigger] sentinel_at(output@, j),
        decreases m,
    {
        m = m - 1;
    }
    if m == 0 {
        return None;
    }
    let marker = m - 1;
    let limit: usize = if marker >= n { marker - n + 1 } else { 0 };
    let mut j: usize = 0;
    while j < limit
        invariant
            s@ == sentinel_bytes(),
            n == s@.len(),
            sentinel_at(output@, marker as int),
            forall|t: int| marker < t ==> !#[trigger] sentinel_at(output@, t),
            forall|t: int| 0 <= t < j ==> !#[trigger] sentinel_at(output@, t),
            j <= limit,
            limit == (if marker >= n { marker - n + 1 } else { 0 }),
        decreases limit - j,
    {
        if sentinel_at_exec(output, &s, j) {
            proof {
                assert forall|q: int| marker_at(output@, q) implies false by {
                    if q < marker {
                        assert(sentinel_at(output@, marker as int));
                    } else if q > marker {
                        assert(!sentinel_at(output@, q));
                    } else {
                        assert(sentinel_at(output@, j as int));
                    }
                }
            }
            return None;
        }
        j = j + 1;
    }
    proof {
        assert forall|t: int| t + sentinel_bytes().len() <= marker implies !#[trigger] sentinel_at(output@, t) by {
            if 0 <= t {
                assert(t < limit);
            }
        }
    }
    Some(marker)
}

/// Parse what curl printed for one hop: headers, the sentinel, and the metadata line.
pub fn parse_hop_response(output: &[u8]) -> (r: Result<HopResponse, AgyError>)
    ensures
        match hop_outcome(output@) {
            Some(h) => r matches Ok(resp) && resp@ == h,
            None => r == Err::<HopResponse, AgyError>(AgyError::OutputInvalid),
        },
{
    let marker = match find_marker(output) {
        Some(m) => m,
        None => {
            return Err(AgyError::OutputInvalid);
        },
    };
    proof {
        assert(marker_at(output@, marker as int));
        assert forall|q: int| marker_at(output@, q) implies q == marker by {
            if q < marker {
                assert(sentinel_at(output@, marker as int));
            } else if q > marker {
                assert(!sentinel_at(output@, q));
            }
        }
    }
    let ghost m = choose|q: int| marker_at(output@, q);
    let n = sentinel().len();
    proof {
        assert(sentinel_at(output@, marker as int));
        assert(marker + n <= output@.len());
        assert(output@.len() == output.len());
    }
    let metadata = slice_bytes(output, marker + n, output.len());
    let header_bytes = slice_bytes(output, 0, marker);
    proof {
        assert(m == marker);
        assert(metadata@ =~= output@.skip(marker + sentinel_bytes().len()));
        assert(header_bytes@ =~= output@.take(marker as int));
    }
    let (status, count) = match parse_metadata(metadata.as_slice()) {
        Ok(v) => v,
        Err(e) => {
            return Err(e);
        },
    };
    if count != 0 {
        return Err(AgyError::OutputInvalid);
    }
    let text = match string_from_utf8(header_bytes.as_slice()) {
        Some(t) => t,
        None => {
            return Err(AgyError::OutputInvalid);
        },
    };
    let text_chars = chars_of(text.as_str());
    proof {
        reveal_strlit("\r\n\r\n");
    }
    let blocks = split_on(&text_chars, &chars_of("\r\n\r\n"));
    let ghost bv = views(blocks@);
    let ghost hv = match select_final(bv) {
        Some(Some(h)) => if h.status == status_class(status) { Some(h) } else { None },
        _ => None,
    };
    proof {
        assert(hop_outcome(output@) == hv);
        assert(bv.take(0) =~= Seq::<Seq<char>>::empty());
    }
    let mut current: Option<HopResponse> = None;
    let mut i: usize = 0;
    while i < blocks.len()
        invariant
            bv == views(blocks@),
            bv.len() == blocks@.len(),
            hop_outcome(output@) == match select_final(bv) {
                Some(Some(h)) => if h.status == status_class(status) { Some(h) } else { None },
                _ => None::<HopView>,
            },
            i <= blocks@.len(),
            select_final(bv.take(i as int)) == Some(match current {
                Some(c) => Some(c@),
                None => None::<HopView>,
            }),
        decreases blocks@.len() - i,
    {
        let block = &blocks[i];
        proof {
            assert(bv[i as int] == block@);
            assert(bv.take(i + 1).drop_last() =~= bv.take(i as int));
            assert(bv.take(i + 1).last() == block@);
        }
        if block.len() > 0 {
            let parsed = match parse_header_block(block) {
                Ok(p) => p,
                Err(e) => {
                    proof {
                        lemma_final_prefix(bv, i + 1);
                    }
                    return Err(e);
                },
            };
            match parsed.status {
                HttpStatus::Informational => {
                    if parsed.location.is_some() {
                        proof {
                            lemma_final_prefix(bv, i + 1);
                        }
                        return Err(AgyError::OutputInvalid);
                    }
                },
                HttpStatus::Success | HttpStatus::Redirect | HttpStatus::Other => {
                    if current.is_some() {
                        proof {
                            lemma_final_prefix(bv, i + 1);
                        }
                        return Err(AgyError::OutputInvalid);
                    }
                    current = Some(parsed);
                },
            }
        }
        i = i + 1;
    }
    proof {
        assert(bv.take(i as int) =~= bv);
    }
    let response = match current {
        Some(c) => c,
        None => {
            return Err(AgyError::OutputInvalid);
        },
    };
    if response.status != HttpStatus::parse(status) {
        return Err(AgyError::OutputInvalid);
    }
    Ok(response)
}

/// Copy `b[start..end]`.
fn slice_bytes(b: &[u8], start: usize, end: usize) -> (r: Vec<u8>)
    requires
        start <= end <= b@.len(),
    ensures
        r@ == b@.subrange(start as int, end as int),
{
    let mut r: Vec<u8> = Vec::new();
    let mut i = start;
    while i < end
        invariant
            start <= i <= end,
            end <= b@.len(),
            r@ == b@.subrange(start as int, i as int),
        decreases end - i,
    {
        r.push(b[i]);
        i = i + 1;
        proof {
            assert(r@ =~= b@.subrange(start as int, i as int));
        }
    }
    r
}

} // verus!

verus! {

/// The final response chosen among header blocks is never an interim one.
proof fn lemma_final_not_interim(blocks: Seq<Seq<char>>)
    ensures
        select_final(blocks) matches Some(Some(h)) ==> h.status != HttpStatus::Informational,
    decreases blocks.len(),
{
    if blocks.len() > 0 {
        lemma_final_not_interim(blocks.drop_last());
    }
}

/// A probed hop resolves to a final response, never an interim 1xx one.
pub proof fn law_hop_is_final(output: Seq<u8>)
    ensures
        hop_outcome(output) matches Some(h) ==> h.status != HttpStatus::Informational,
{
    if exists|m: int| marker_at(output, m) {
        let m = choose|m: int| marker_at(output, m);
        lemma_final_not_interim(split_str(decode_utf8(output.take(m)), "\r\n\r\n"@));
    }
}

} // verus!
