//! Character classes, byte widths and conversions shared by the text parsers.

use vstd::prelude::*;
use vstd::std_specs::iter::IteratorSpec;

verus! {

/// An ASCII decimal digit.
pub open spec fn is_digit(c: char) -> bool {
    '0' <= c && c <= '9'
}

/// An ASCII letter.
pub open spec fn is_ascii_alpha(c: char) -> bool {
    ('a' <= c && c <= 'z') || ('A' <= c && c <= 'Z')
}

/// An ASCII letter or digit.
pub open spec fn is_ascii_alnum(c: char) -> bool {
    is_ascii_alpha(c) || is_digit(c)
}

/// Space, tab, line feed, form feed or carriage return (ASCII whitespace as std defines it).
pub open spec fn is_ascii_space(c: char) -> bool {
    c == ' ' || c == '\t' || c == '\n' || c == '\x0C' || c == '\r'
}

/// A character with the Unicode `White_Space` property.
pub open spec fn is_space(c: char) -> bool {
    let v = c as u32;
    (0x09 <= v && v <= 0x0D) || v == 0x20 || v == 0x85 || v == 0xA0 || v == 0x1680
        || (0x2000 <= v && v <= 0x200A) || v == 0x2028 || v == 0x2029 || v == 0x202F
        || v == 0x205F || v == 0x3000
}

/// The value of an ASCII digit.
pub open spec fn digit_value(c: char) -> nat {
    ((c as u32) - ('0' as u32)) as nat
}

/// The number of bytes that UTF-8 uses for one character.
pub open spec fn utf8_width(c: char) -> nat {
    let v = c as u32;
    if v < 0x80 {
        1
    } else if v < 0x800 {
        2
    } else if v < 0x10000 {
        3
    } else {
        4
    }
}

/// The UTF-8 byte length of a character sequence.
pub open spec fn byte_len(s: Seq<char>) -> nat
    decreases s.len(),
{
    if s.len() == 0 {
        0
    } else {
        byte_len(s.drop_last()) + utf8_width(s.last())
    }
}

pub proof fn lemma_byte_len_step(s: Seq<char>, k: int)
    requires
        0 <= k < s.len(),
    ensures
        byte_len(s.take(k + 1)) == byte_len(s.take(k)) + utf8_width(s[k]),
{
    assert(s.take(k + 1).drop_last() =~= s.take(k));
}

pub proof fn lemma_byte_len_increasing(s: Seq<char>, j: int, k: int)
    requires
        0 <= j < k <= s.len(),
    ensures
        byte_len(s.take(j)) < byte_len(s.take(k)),
    decreases k - j,
{
    lemma_byte_len_step(s, k - 1);
    if j < k - 1 {
        lemma_byte_len_increasing(s, j, k - 1);
    }
}

/// ASCII case-insensitive character equality.
pub open spec fn lower_ascii(c: char) -> char {
    if 'A' <= c && c <= 'Z' {
        ((c as u8) + 32) as char
    } else {
        c
    }
}

/// ASCII case-insensitive sequence equality.
pub open spec fn eq_ignore_ascii_case(a: Seq<char>, b: Seq<char>) -> bool {
    a.len() == b.len() && forall|i: int| 0 <= i < a.len() ==> lower_ascii(#[trigger] a[i]) == lower_ascii(b[i])
}

/// Whether `c` is alphabetic or numeric in the Unicode sense; std decides this from its tables.
pub uninterp spec fn char_alphanumeric(c: char) -> bool;

/// `char::is_alphanumeric` from std: Unicode `Alphabetic` or `Numeric`.
/// Its result is named `char_alphanumeric`; the one fact stated beside it is the ASCII case that
/// the std documentation spells out (ASCII letters and digits are alphanumeric, other ASCII is not).
#[verifier::external_body]
pub fn is_alphanumeric(c: char) -> (r: bool)
    ensures
        r == char_alphanumeric(c),
        (c as u32) < 0x80 ==> (r <==> is_ascii_alnum(c)),
{
    c.is_alphanumeric()
}

pub fn is_digit_exec(c: char) -> (r: bool)
    ensures
        r == is_digit(c),
{
    '0' <= c && c <= '9'
}

pub fn is_ascii_alpha_exec(c: char) -> (r: bool)
    ensures
        r == is_ascii_alpha(c),
{
    ('a' <= c && c <= 'z') || ('A' <= c && c <= 'Z')
}

pub fn is_ascii_alnum_exec(c: char) -> (r: bool)
    ensures
        r == is_ascii_alnum(c),
{
    is_ascii_alpha_exec(c) || is_digit_exec(c)
}

pub fn is_ascii_space_exec(c: char) -> (r: bool)
    ensures
        r == is_ascii_space(c),
{
    c == ' ' || c == '\t' || c == '\n' || c == '\x0C' || c == '\r'
}

pub fn is_space_exec(c: char) -> (r: bool)
    ensures
        r == is_space(c),
{
    let v = c as u32;
    (0x09 <= v && v <= 0x0D) || v == 0x20 || v == 0x85 || v == 0xA0 || v == 0x1680
        || (0x2000 <= v && v <= 0x200A) || v == 0x2028 || v == 0x2029 || v == 0x202F
        || v == 0x205F || v == 0x3000
}

pub fn utf8_width_exec(c: char) -> (w: usize)
    ensures
        w == utf8_width(c),
{
    let v = c as u32;
    if v < 0x80 {
        1
    } else if v < 0x800 {
        2
    } else if v < 0x10000 {
        3
    } else {
        4
    }
}

pub fn lower_ascii_exec(c: char) -> (r: char)
    ensures
        r == lower_ascii(c),
{
    if 'A' <= c && c <= 'Z' {
        ((c as u8) + 32) as char
    } else {
        c
    }
}

/// The characters of a string slice.
pub fn chars_of(s: &str) -> (v: Vec<char>)
    ensures
        v@ == s@,
{
    let mut it = s.chars();
    let mut v: Vec<char> = Vec::new();
    proof {
        broadcast use vstd::string::group_string_axioms;
    }
    loop
        invariant
            v@ + it.remaining() == s@,
            it.obeys_prophetic_iter_laws(),
            it.decrease() is Some,
        decreases it.decrease()->0,
    {
        match it.next() {
            Some(c) => {
                v.push(c);
            },
            None => {
                return v;
            },
        }
    }
}

} // verus!

verus! {

/// `String::from_utf8` on a copy of `bytes`: some text exactly when the bytes are valid UTF-8,
/// and then the characters they encode.
#[verifier::external_body]
pub fn string_from_utf8(bytes: &[u8]) -> (r: Option<String>)
    ensures
        r is Some <==> vstd::utf8::valid_utf8(bytes@),
        r matches Some(s) ==> s@ == vstd::utf8::decode_utf8(bytes@),
{
    String::from_utf8(bytes.to_vec()).ok()
}

/// A `String` holding exactly the given characters.
#[verifier::external_body]
pub fn string_from_chars(chars: &[char]) -> (s: String)
    ensures
        s@ == chars@,
{
    chars.iter().collect()
}

/// The number of leading characters of `s` that satisfy `keep`.
pub open spec fn run_len(s: Seq<char>, keep: spec_fn(char) -> bool) -> nat
    decreases s.len(),
{
    if s.len() > 0 && keep(s[0]) {
        1 + run_len(s.drop_first(), keep)
    } else {
        0
    }
}

/// `s` without leading Unicode whitespace.
pub open spec fn trim_start(s: Seq<char>) -> Seq<char> {
    s.skip(run_len(s, |c: char| is_space(c)) as int)
}

/// The number of trailing Unicode whitespace characters of `s`.
pub open spec fn trailing_space(s: Seq<char>) -> nat
    decreases s.len(),
{
    if s.len() > 0 && is_space(s.last()) {
        1 + trailing_space(s.drop_last())
    } else {
        0
    }
}

/// `s` without leading and trailing Unicode whitespace (what `str::trim` returns).
pub open spec fn trim(s: Seq<char>) -> Seq<char> {
    let t = trim_start(s);
    t.take(t.len() - trailing_space(t))
}

/// The words of `s`: maximal runs of characters that are not ASCII whitespace
/// (what `str::split_ascii_whitespace` yields).
pub open spec fn ascii_words(s: Seq<char>) -> Seq<Seq<char>>
    decreases s.len(),
{
    if s.len() == 0 {
        seq![]
    } else if is_ascii_space(s[0]) {
        ascii_words(s.drop_first())
    } else {
        let n = run_len(s, |c: char| !is_ascii_space(c));
        proof {
            lemma_run_len_bound(s, |c: char| !is_ascii_space(c));
            assert(n >= 1);
        }
        seq![s.take(n as int)] + ascii_words(s.skip(n as int))
    }
}

/// The number of leading characters of `s` that differ from `sep`.
pub open spec fn run_to(s: Seq<char>, sep: char) -> nat
    decreases s.len(),
{
    if s.len() > 0 && s[0] != sep {
        1 + run_to(s.drop_first(), sep)
    } else {
        0
    }
}

pub proof fn lemma_run_to(s: Seq<char>, sep: char, n: int)
    requires
        0 <= n <= s.len(),
        forall|i: int| 0 <= i < n ==> #[trigger] s[i] != sep,
        n == s.len() || s[n] == sep,
    ensures
        run_to(s, sep) == n,
    decreases n,
{
    if n > 0 {
        assert forall|i: int| 0 <= i < n - 1 implies #[trigger] s.drop_first()[i] != sep by {
            assert(s.drop_first()[i] == s[i + 1]);
        }
        if n < s.len() {
            assert(s.drop_first()[n - 1] == s[n]);
        }
        lemma_run_to(s.drop_first(), sep, n - 1);
    }
}

pub proof fn lemma_run_to_bound(s: Seq<char>, sep: char)
    ensures
        run_to(s, sep) <= s.len(),
    decreases s.len(),
{
    if s.len() > 0 && s[0] != sep {
        lemma_run_to_bound(s.drop_first(), sep);
    }
}

/// The fields of `s` between occurrences of `sep` (what `str::split` yields; there is always one).
pub open spec fn fields(s: Seq<char>, sep: char) -> Seq<Seq<char>>
    decreases s.len(),
{
    let n = run_to(s, sep);
    proof {
        lemma_run_to_bound(s, sep);
    }
    if n == s.len() {
        seq![s]
    } else {
        seq![s.take(n as int)] + fields(s.skip(n + 1 as int), sep)
    }
}

/// The decimal value of a sequence of ASCII digits.
pub open spec fn digits_value(s: Seq<char>) -> nat
    decreases s.len(),
{
    if s.len() == 0 {
        0
    } else {
        digits_value(s.drop_last()) * 10 + digit_value(s.last())
    }
}

/// Every character is an ASCII decimal digit.
pub open spec fn all_digits(s: Seq<char>) -> bool {
    forall|i: int| 0 <= i < s.len() ==> is_digit(#[trigger] s[i])
}

/// What `str::parse` gives for an unsigned integer type whose largest value is `max`:
/// an optional `+` followed by at least one ASCII digit, with a value of at most `max`.
pub open spec fn parse_unsigned(s: Seq<char>, max: nat) -> Option<nat> {
    let digits = if s.len() > 0 && s[0] == '+' {
        s.drop_first()
    } else {
        s
    };
    if digits.len() > 0 && all_digits(digits) && digits_value(digits) <= max {
        Some(digits_value(digits))
    } else {
        None
    }
}

/// The decimal spelling of `n` without leading zeros.
pub open spec fn decimal(n: nat) -> Seq<char>
    decreases n,
{
    if n < 10 {
        seq![(n + 48) as char]
    } else {
        decimal(n / 10).push(((n % 10) + 48) as char)
    }
}

/// The decimal spelling of `n`, left-padded with zeros to at least `width` characters.
pub open spec fn zero_padded(n: nat, width: nat) -> Seq<char> {
    let d = decimal(n);
    if d.len() >= width {
        d
    } else {
        Seq::new((width - d.len()) as nat, |i: int| '0') + d
    }
}

pub proof fn lemma_run_len_bound(s: Seq<char>, keep: spec_fn(char) -> bool)
    ensures
        run_len(s, keep) <= s.len(),
        forall|i: int| 0 <= i < run_len(s, keep) ==> keep(#[trigger] s[i]),
        run_len(s, keep) < s.len() ==> !keep(s[run_len(s, keep) as int]),
    decreases s.len(),
{
    if s.len() > 0 && keep(s[0]) {
        lemma_run_len_bound(s.drop_first(), keep);
        assert forall|i: int| 0 <= i < run_len(s, keep) implies keep(#[trigger] s[i]) by {
            if i > 0 {
                assert(s[i] == s.drop_first()[i - 1]);
            }
        }
    }
}

/// The run of leading characters satisfying `keep` is determined by where it stops.
pub proof fn lemma_run_len_at(s: Seq<char>, keep: spec_fn(char) -> bool, n: int)
    requires
        0 <= n <= s.len(),
        forall|i: int| 0 <= i < n ==> keep(#[trigger] s[i]),
        n == s.len() || !keep(s[n]),
    ensures
        run_len(s, keep) == n,
    decreases n,
{
    if n > 0 {
        assert forall|i: int| 0 <= i < n - 1 implies keep(#[trigger] s.drop_first()[i]) by {
            assert(s.drop_first()[i] == s[i + 1]);
        }
        if n < s.len() {
            assert(s.drop_first()[n - 1] == s[n]);
        }
        lemma_run_len_at(s.drop_first(), keep, n - 1);
    }
}

/// The index of the first character of `s[start..]` that does not satisfy `keep`, or `s.len()`.
pub fn scan_while_space(s: &Vec<char>, start: usize, ascii: bool) -> (end: usize)
    requires
        start <= s@.len(),
    ensures
        start <= end <= s@.len(),
        ascii ==> end - start == run_len(s@.skip(start as int), |c: char| is_ascii_space(c)),
        !ascii ==> end - start == run_len(s@.skip(start as int), |c: char| is_space(c)),
{
    let mut i = start;
    loop
        invariant
            start <= i <= s@.len(),
            ascii ==> forall|k: int| start <= k < i ==> is_ascii_space(#[trigger] s@[k]),
            !ascii ==> forall|k: int| start <= k < i ==> is_space(#[trigger] s@[k]),
        ensures
            start <= i <= s@.len(),
            ascii ==> forall|k: int| start <= k < i ==> is_ascii_space(#[trigger] s@[k]),
            !ascii ==> forall|k: int| start <= k < i ==> is_space(#[trigger] s@[k]),
            i == s@.len() || (ascii && !is_ascii_space(s@[i as int])) || (!ascii && !is_space(
                s@[i as int],
            )),
        decreases s@.len() - i,
    {
        if i == s.len() {
            break;
        }
        let hit = if ascii {
            is_ascii_space_exec(s[i])
        } else {
            is_space_exec(s[i])
        };
        if !hit {
            break;
        }
        i = i + 1;
    }
    proof {
        let t = s@.skip(start as int);
        if ascii {
            lemma_run_len_at(t, |c: char| is_ascii_space(c), (i - start) as int);
        } else {
            lemma_run_len_at(t, |c: char| is_space(c), (i - start) as int);
        }
    }
    i
}

} // verus!

verus! {

/// The index of the first ASCII whitespace character at or after `start`, or `s.len()`.
pub fn scan_word(s: &Vec<char>, start: usize) -> (end: usize)
    requires
        start <= s@.len(),
    ensures
        start <= end <= s@.len(),
        end - start == run_len(s@.skip(start as int), |c: char| !is_ascii_space(c)),
{
    let mut i = start;
    loop
        invariant
            start <= i <= s@.len(),
            forall|k: int| start <= k < i ==> !is_ascii_space(#[trigger] s@[k]),
        ensures
            start <= i <= s@.len(),
            forall|k: int| start <= k < i ==> !is_ascii_space(#[trigger] s@[k]),
            i == s@.len() || is_ascii_space(s@[i as int]),
        decreases s@.len() - i,
    {
        if i == s.len() || is_ascii_space_exec(s[i]) {
            break;
        }
        i = i + 1;
    }
    proof {
        lemma_run_len_at(s@.skip(start as int), |c: char| !is_ascii_space(c), (i - start) as int);
    }
    i
}

/// The index of the first `sep` at or after `start`, or `s.len()`.
pub fn scan_to(s: &Vec<char>, start: usize, sep: char) -> (end: usize)
    requires
        start <= s@.len(),
    ensures
        start <= end <= s@.len(),
        end - start == run_to(s@.skip(start as int), sep),
{
    let mut i = start;
    loop
        invariant
            start <= i <= s@.len(),
            forall|k: int| start <= k < i ==> #[trigger] s@[k] != sep,
        ensures
            start <= i <= s@.len(),
            forall|k: int| start <= k < i ==> #[trigger] s@[k] != sep,
            i == s@.len() || s@[i as int] == sep,
        decreases s@.len() - i,
    {
        if i == s.len() || s[i] == sep {
            break;
        }
        i = i + 1;
    }
    proof {
        lemma_run_to(s@.skip(start as int), sep, (i - start) as int);
    }
    i
}

/// The characters `s[start..end]`.
pub fn slice_chars(s: &Vec<char>, start: usize, end: usize) -> (r: Vec<char>)
    requires
        start <= end <= s@.len(),
    ensures
        r@ == s@.subrange(start as int, end as int),
{
    let mut r: Vec<char> = Vec::new();
    let mut i = start;
    while i < end
        invariant
            start <= i <= end <= s@.len(),
            r@ == s@.subrange(start as int, i as int),
        decreases end - i,
    {
        r.push(s[i]);
        i = i + 1;
        proof {
            assert(r@ =~= s@.subrange(start as int, i as int));
        }
    }
    r
}

/// The character sequences held by a vector of character vectors.
pub open spec fn views(v: Seq<Vec<char>>) -> Seq<Seq<char>> {
    Seq::new(v.len(), |i: int| v[i]@)
}

/// `str::split_ascii_whitespace`, collected.
pub fn ascii_words_of(s: &Vec<char>) -> (words: Vec<Vec<char>>)
    ensures
        views(words@) == ascii_words(s@),
{
    let mut words: Vec<Vec<char>> = Vec::new();
    let mut i: usize = 0;
    proof {
        assert(s@.skip(0) =~= s@);
    }
    while i < s.len()
        invariant
            i <= s@.len(),
            views(words@) + ascii_words(s@.skip(i as int)) == ascii_words(s@),
        decreases s@.len() - i,
    {
        let t = Ghost(s@.skip(i as int));
        if is_ascii_space_exec(s[i]) {
            proof {
                assert(t@.drop_first() =~= s@.skip(i + 1));
            }
            i = i + 1;
        } else {
            let j = scan_word(s, i);
            proof {
                let n = run_len(t@, |c: char| !is_ascii_space(c));
                assert(t@.take(n as int) =~= s@.subrange(i as int, j as int));
                assert(t@.skip(n as int) =~= s@.skip(j as int));
            }
            let w = slice_chars(s, i, j);
            let ghost before = views(words@);
            words.push(w);
            proof {
                assert(views(words@) =~= before.push(s@.subrange(i as int, j as int)));
                assert(ascii_words(t@) =~= seq![s@.subrange(i as int, j as int)] + ascii_words(s@.skip(j as int)));
                assert(before.push(s@.subrange(i as int, j as int)) + ascii_words(s@.skip(j as int))
                    =~= before + (seq![s@.subrange(i as int, j as int)] + ascii_words(s@.skip(j as int))));
            }
            i = j;
        }
    }
    proof {
        assert(s@.skip(i as int) =~= Seq::<char>::empty());
        assert(views(words@) + ascii_words(Seq::<char>::empty()) =~= views(words@));
    }
    words
}

proof fn lemma_fields_unfold(s: Seq<char>, sep: char)
    ensures
        run_to(s, sep) == s.len() ==> fields(s, sep) == seq![s],
        run_to(s, sep) < s.len() ==> fields(s, sep) == seq![
            s.take(run_to(s, sep) as int),
        ] + fields(s.skip(run_to(s, sep) + 1 as int), sep),
{
}

/// `str::split`, collected.
pub fn fields_of(s: &Vec<char>, sep: char) -> (parts: Vec<Vec<char>>)
    ensures
        views(parts@) == fields(s@, sep),
        parts@.len() >= 1,
{
    let mut parts: Vec<Vec<char>> = Vec::new();
    let mut i: usize = 0;
    proof {
        assert(s@.skip(0) =~= s@);
    }
    loop
        invariant
            i <= s@.len(),
            views(parts@) + fields(s@.skip(i as int), sep) == fields(s@, sep),
        decreases s@.len() - i,
    {
        let t = Ghost(s@.skip(i as int));
        let j = scan_to(s, i, sep);
        let w = slice_chars(s, i, j);
        let ghost before = views(parts@);
        proof {
            let n = run_to(t@, sep);
            assert(t@.take(n as int) =~= s@.subrange(i as int, j as int));
        }
        parts.push(w);
        proof {
            assert(views(parts@) =~= before.push(s@.subrange(i as int, j as int)));
        }
        if j == s.len() {
            proof {
                assert(t@ =~= s@.subrange(i as int, j as int));
                assert(run_to(t@, sep) == t@.len());
                lemma_fields_unfold(t@, sep);
                assert(fields(t@, sep) == seq![t@]);
                assert(before + fields(t@, sep) =~= views(parts@));
            }
            return parts;
        }
        proof {
            let n = run_to(t@, sep);
            assert(t@.skip(n + 1 as int) =~= s@.skip(j + 1));
            lemma_fields_unfold(t@, sep);
            assert(before.push(s@.subrange(i as int, j as int)) + fields(s@.skip(j + 1), sep)
                =~= before + (seq![s@.subrange(i as int, j as int)] + fields(s@.skip(j + 1), sep)));
        }
        i = j + 1;
    }
}

} // verus!

verus! {

proof fn lemma_trailing_at(s: Seq<char>, k: int)
    requires
        0 <= k <= s.len(),
        forall|i: int| k <= i < s.len() ==> is_space(#[trigger] s[i]),
        k == 0 || !is_space(s[k - 1]),
    ensures
        trailing_space(s) == s.len() - k,
    decreases s.len() - k,
{
    if k < s.len() {
        assert forall|i: int| k <= i < s.drop_last().len() implies is_space(
            #[trigger] s.drop_last()[i],
        ) by {
            assert(s.drop_last()[i] == s[i]);
        }
        if k > 0 {
            assert(s.drop_last()[k - 1] == s[k - 1]);
        }
        lemma_trailing_at(s.drop_last(), k);
    }
}

/// `str::trim`: without leading and trailing Unicode whitespace.
pub fn trim_chars(s: &Vec<char>) -> (r: Vec<char>)
    ensures
        r@ == trim(s@),
{
    let start = scan_while_space(s, 0, false);
    proof {
        assert(s@.skip(0) =~= s@);
    }
    let mut end = s.len();
    while end > start && is_space_exec(s[end - 1])
        invariant
            start <= end <= s@.len(),
            forall|i: int| end <= i < s@.len() ==> is_space(#[trigger] s@[i]),
        decreases end,
    {
        end = end - 1;
    }
    proof {
        let t = trim_start(s@);
        assert(t =~= s@.skip(start as int));
        assert forall|i: int| end - start <= i < t.len() implies is_space(#[trigger] t[i]) by {
            assert(t[i] == s@[start + i]);
        }
        if end > start {
            assert(t[end - start - 1] == s@[end - 1]);
        }
        lemma_trailing_at(t, end - start);
        assert(t.take(t.len() - trailing_space(t)) =~= s@.subrange(start as int, end as int));
    }
    slice_chars(s, start, end)
}

proof fn lemma_digits_value_grows(s: Seq<char>, k: int)
    requires
        0 <= k <= s.len(),
    ensures
        digits_value(s.take(k)) <= digits_value(s),
    decreases s.len() - k,
{
    if k < s.len() {
        lemma_digits_value_grows(s.drop_last(), k);
        assert(s.drop_last().take(k) =~= s.take(k));
    } else {
        assert(s.take(k) =~= s);
    }
}

proof fn lemma_parse_unsigned_digits(s: Seq<char>, max: nat, digits: Seq<char>)
    requires
        digits == (if s.len() > 0 && s[0] == '+' { s.drop_first() } else { s }),
    ensures
        parse_unsigned(s, max) == (if digits.len() > 0 && all_digits(digits) && digits_value(digits) <= max {
            Some(digits_value(digits))
        } else {
            None
        }),
{
}

/// `str::parse` of an unsigned integer type whose largest value is `max`.
pub fn parse_unsigned_exec(s: &Vec<char>, max: u64) -> (r: Option<u64>)
    ensures
        match r {
            Some(v) => parse_unsigned(s@, max as nat) == Some(v as nat),
            None => parse_unsigned(s@, max as nat) is None,
        },
{
    let start: usize = if s.len() > 0 && s[0] == '+' {
        1
    } else {
        0
    };
    let ghost digits = if s@.len() > 0 && s@[0] == '+' {
        s@.drop_first()
    } else {
        s@
    };
    proof {
        assert(digits =~= s@.skip(start as int));
    }
    if start == s.len() {
        proof {
            lemma_parse_unsigned_digits(s@, max as nat, digits);
        }
        return None;
    }
    let mut i = start;
    let mut v: u64 = 0;
    while i < s.len()
        invariant
            start <= i <= s@.len(),
            digits =~= s@.skip(start as int),
            digits == (if s@.len() > 0 && s@[0] == '+' { s@.drop_first() } else { s@ }),
            all_digits(s@.subrange(start as int, i as int)),
            v as nat == digits_value(s@.subrange(start as int, i as int)),
            v <= max,
        decreases s@.len() - i,
    {
        let c = s[i];
        if !is_digit_exec(c) {
            proof {
                assert(digits[i - start] == c);
                assert(!is_digit(digits[i - start]));
                assert(!all_digits(digits));
                lemma_parse_unsigned_digits(s@, max as nat, digits);
            }
            return None;
        }
        let d = (c as u32 - '0' as u32) as u64;
        let ghost prefix = s@.subrange(start as int, i + 1);
        proof {
            assert(prefix.drop_last() =~= s@.subrange(start as int, i as int));
            assert(prefix.last() == c);
        }
        if d > max || v > (max - d) / 10 {
            proof {
                assert(digits_value(prefix) == v * 10 + d);
                if d <= max {
                    assert(v * 10 + d > max) by (nonlinear_arith)
                        requires
                            v > (max - d) / 10,
                            d <= max,
                    ;
                }
                if all_digits(digits) {
                    assert(digits.take(i + 1 - start) =~= prefix);
                    lemma_digits_value_grows(digits, i + 1 - start);
                }
                lemma_parse_unsigned_digits(s@, max as nat, digits);
            }
            return None;
        }
        v = v * 10 + d;
        i = i + 1;
        proof {
            assert(all_digits(s@.subrange(start as int, i as int)));
        }
    }
    proof {
        assert(s@.subrange(start as int, i as int) =~= digits);
        lemma_parse_unsigned_digits(s@, max as nat, digits);
    }
    Some(v)
}

proof fn lemma_decimal_len(n: nat)
    ensures
        decimal(n).len() >= 1,
        n < 10 ==> decimal(n).len() == 1,
        n < 100 ==> decimal(n).len() <= 2,
        n < 1000 ==> decimal(n).len() <= 3,
        n >= 10 ==> decimal(n).len() >= 2,
        n >= 1000 ==> decimal(n).len() >= 4,
        10 <= n < 100 ==> decimal(n).len() == 2,
        n < 10000 ==> decimal(n).len() <= 4,
        n >= 10000 ==> decimal(n).len() >= 5,
        n >= 100 ==> decimal(n).len() >= 3,
    decreases n,
{
    if n >= 10 {
        lemma_decimal_len(n / 10);
    }
}

/// Append the decimal spelling of `n`.
pub fn push_decimal(out: &mut Vec<char>, n: u64)
    ensures
        final(out)@ == old(out)@ + decimal(n as nat),
    decreases n,
{
    if n < 10 {
        out.push(((n as u8) + 48u8) as char);
        proof {
            assert(final(out)@ =~= old(out)@ + decimal(n as nat));
        }
    } else {
        push_decimal(out, n / 10);
        out.push((((n % 10) as u8) + 48u8) as char);
        proof {
            assert(decimal(n as nat) == decimal((n / 10) as nat).push((((n % 10) as nat) + 48) as char));
        }
    }
}

/// Append the decimal spelling of `n`, left-padded with zeros to at least `width` characters.
pub fn push_zero_padded(out: &mut Vec<char>, n: u64, width: usize)
    ensures
        final(out)@ == old(out)@ + zero_padded(n as nat, width as nat),
{
    let mut digits: Vec<char> = Vec::new();
    push_decimal(&mut digits, n);
    proof {
        assert(digits@ =~= decimal(n as nat));
    }
    let ghost start = out@;
    if digits.len() < width {
        let mut k: usize = 0;
        while k < width - digits.len()
            invariant
                digits@ == decimal(n as nat),
                digits@.len() < width,
                k <= width - digits@.len(),
                out@ == start + Seq::new(k as nat, |i: int| '0'),
            decreases width - digits@.len() - k,
        {
            out.push('0');
            k = k + 1;
            proof {
                assert(out@ =~= start + Seq::new(k as nat, |i: int| '0'));
            }
        }
    }
    let mut j: usize = 0;
    let ghost padded = out@;
    while j < digits.len()
        invariant
            j <= digits@.len(),
            out@ == padded + digits@.take(j as int),
        decreases digits@.len() - j,
    {
        out.push(digits[j]);
        j = j + 1;
        proof {
            assert(out@ =~= padded + digits@.take(j as int));
        }
    }
    proof {
        assert(digits@.take(j as int) =~= digits@);
        assert(final(out)@ =~= old(out)@ + zero_padded(n as nat, width as nat));
    }
}

} // verus!

verus! {

/// Character-sequence equality.
pub fn chars_equal(a: &[char], b: &[char]) -> (r: bool)
    ensures
        r == (a@ == b@),
{
    if a.len() != b.len() {
        return false;
    }
    let mut i: usize = 0;
    while i < a.len()
        invariant
            a@.len() == b@.len(),
            i <= a@.len(),
            forall|k: int| 0 <= k < i ==> a@[k] == b@[k],
        decreases a@.len() - i,
    {
        if a[i] != b[i] {
            return false;
        }
        i = i + 1;
    }
    proof {
        assert(a@ =~= b@);
    }
    true
}

/// Whether the characters equal a string literal.
pub fn equals_str(a: &[char], lit: &str) -> (r: bool)
    ensures
        r == (a@ == lit@),
{
    let b = chars_of(lit);
    chars_equal(a, b.as_slice())
}

} // verus!

verus! {

/// The UTF-8 byte length of a character sequence (`str::len`).
pub fn utf8_len(s: &[char]) -> (n: u128)
    ensures
        n == byte_len(s@),
{
    let mut acc: u128 = 0;
    let mut i: usize = 0;
    proof {
        assert(s@.take(0) =~= Seq::<char>::empty());
    }
    while i < s.len()
        invariant
            i <= s@.len(),
            acc == byte_len(s@.take(i as int)),
            acc <= 4 * i,
        decreases s@.len() - i,
    {
        proof {
            lemma_byte_len_step(s@, i as int);
        }
        acc = acc + utf8_width_exec(s[i]) as u128;
        i = i + 1;
    }
    proof {
        assert(s@.take(i as int) =~= s@);
    }
    acc
}

/// `pat` occurs somewhere in `s` (what `str::contains` answers).
pub open spec fn contains_seq(s: Seq<char>, pat: Seq<char>) -> bool {
    exists|i: int| 0 <= i && i + pat.len() <= s.len() && #[trigger] s.subrange(i, i + pat.len()) == pat
}

/// `s` begins with `pat` (what `str::starts_with` answers).
pub open spec fn starts_with(s: Seq<char>, pat: Seq<char>) -> bool {
    pat.len() <= s.len() && s.take(pat.len() as int) == pat
}

/// Whether `pat` matches `s` at `at`.
fn matches_at(s: &[char], pat: &[char], at: usize) -> (r: bool)
    requires
        at + pat@.len() <= s@.len(),
    ensures
        r == (s@.subrange(at as int, at + pat@.len()) == pat@),
{
    let n = s.len();
    let mut k: usize = 0;
    while k < pat.len()
        invariant
            n == s@.len(),
            at + pat@.len() <= s@.len(),
            k <= pat@.len(),
            forall|j: int| 0 <= j < k ==> s@[at + j] == pat@[j],
        decreases pat@.len() - k,
    {
        if s[at + k] != pat[k] {
            proof {
                assert(s@.subrange(at as int, at + pat@.len())[k as int] != pat@[k as int]);
            }
            return false;
        }
        k = k + 1;
    }
    proof {
        assert(s@.subrange(at as int, at + pat@.len()) =~= pat@);
    }
    true
}

/// `str::contains` on character sequences.
pub fn contains_chars(s: &[char], pat: &[char]) -> (r: bool)
    ensures
        r == contains_seq(s@, pat@),
{
    let n = s.len();
    if pat.len() > n {
        return false;
    }
    if pat.len() == 0 {
        proof {
            assert(s@.subrange(0, 0 + pat@.len() as int) =~= pat@);
        }
        return true;
    }
    let last = n - pat.len();
    let mut i: usize = 0;
    while i <= last
        invariant
            n == s@.len(),
            last + pat@.len() == n,
            pat@.len() > 0,
            i <= last + 1,
            forall|j: int| 0 <= j < i ==> #[trigger] s@.subrange(j, j + pat@.len()) != pat@,
        decreases last + 1 - i,
    {
        if matches_at(s, pat, i) {
            return true;
        }
        i = i + 1;
    }
    false
}

/// `str::starts_with` on character sequences.
pub fn starts_with_chars(s: &[char], pat: &[char]) -> (r: bool)
    ensures
        r == starts_with(s@, pat@),
{
    if pat.len() > s.len() {
        return false;
    }
    let r = matches_at(s, pat, 0);
    proof {
        assert(s@.subrange(0, pat@.len() as int) =~= s@.take(pat@.len() as int));
    }
    r
}

} // verus!

verus! {

pub proof fn lemma_trailing_space_bound(s: Seq<char>)
    ensures
        trailing_space(s) <= s.len(),
    decreases s.len(),
{
    if s.len() > 0 && is_space(s.last()) {
        lemma_trailing_space_bound(s.drop_last());
    }
}

/// A text that trimming leaves as long as it was is its own trim.
pub proof fn lemma_trim_unchanged(s: Seq<char>)
    requires
        trim(s).len() == s.len(),
    ensures
        trim(s) == s,
{
    lemma_run_len_bound(s, |c: char| is_space(c));
    let t = trim_start(s);
    lemma_trailing_space_bound(t);
    assert(t =~= s);
    assert(t.take(t.len() as int) =~= t);
}

} // verus!

verus! {

/// String equality.
pub fn same_text(a: &str, b: &str) -> (r: bool)
    ensures
        r == (a@ == b@),
{
    let x = chars_of(a);
    let y = chars_of(b);
    chars_equal(x.as_slice(), y.as_slice())
}

} // verus!

verus! {

/// Append `extra` to `out`.
pub fn push_chars(out: &mut Vec<char>, extra: &[char])
    ensures
        final(out)@ == old(out)@ + extra@,
{
    let mut i: usize = 0;
    while i < extra.len()
        invariant
            i <= extra@.len(),
            out@ == old(out)@ + extra@.take(i as int),
        decreases extra@.len() - i,
    {
        out.push(extra[i]);
        i = i + 1;
        proof {
            assert(out@ =~= old(out)@ + extra@.take(i as int));
        }
    }
    proof {
        assert(extra@.take(i as int) =~= extra@);
    }
}

} // verus!

verus! {

/// The first index at or after `i` where `pat` occurs in `s`, or `s.len()` where none does.
pub open spec fn match_from(s: Seq<char>, pat: Seq<char>, i: int) -> int
    decreases s.len() - i,
{
    if pat.len() == 0 || i < 0 || i + pat.len() > s.len() {
        s.len() as int
    } else if s.subrange(i, i + pat.len() as int) == pat {
        i
    } else {
        match_from(s, pat, i + 1)
    }
}

pub proof fn lemma_match_from_bounds(s: Seq<char>, pat: Seq<char>, i: int)
    requires
        0 <= i <= s.len(),
    ensures
        i <= match_from(s, pat, i) <= s.len(),
        match_from(s, pat, i) < s.len() ==> match_from(s, pat, i) + pat.len() <= s.len(),
    decreases s.len() - i,
{
    if pat.len() > 0 && i + pat.len() <= s.len() && s.subrange(i, i + pat.len() as int) != pat {
        lemma_match_from_bounds(s, pat, i + 1);
    }
}

/// The pieces of `s[start..]` between non-overlapping occurrences of a non-empty `pat`, found
/// from the left.
pub open spec fn split_from(s: Seq<char>, pat: Seq<char>, start: int) -> Seq<Seq<char>>
    decreases s.len() - start,
{
    if start < 0 || start > s.len() {
        seq![]
    } else {
        let k = match_from(s, pat, start);
        proof {
            lemma_match_from_bounds(s, pat, start);
        }
        if pat.len() == 0 || k >= s.len() {
            seq![s.subrange(start, s.len() as int)]
        } else {
            seq![s.subrange(start, k)] + split_from(s, pat, k + pat.len())
        }
    }
}

/// `str::split` with a string pattern, collected.
pub open spec fn split_str(s: Seq<char>, pat: Seq<char>) -> Seq<Seq<char>> {
    split_from(s, pat, 0)
}

/// The first index at or after `start` where `pat` occurs in `s`, or `s.len()`.
pub fn find_from(s: &Vec<char>, pat: &Vec<char>, start: usize) -> (k: usize)
    requires
        start <= s@.len(),
        pat@.len() > 0,
    ensures
        k == match_from(s@, pat@, start as int),
{
    let mut i = start;
    while i < s.len() && pat.len() <= s.len() - i
        invariant
            pat@.len() > 0,
            start <= i <= s@.len(),
            match_from(s@, pat@, start as int) == match_from(s@, pat@, i as int),
        decreases s@.len() - i,
    {
        let mut j: usize = 0;
        while j < pat.len() && s[i + j] == pat[j]
            invariant
                i + pat@.len() <= s@.len(),
                s.len() == s@.len(),
                pat.len() == pat@.len(),
                j <= pat@.len(),
                forall|t: int| 0 <= t < j ==> s@[i + t] == pat@[t],
            decreases pat@.len() - j,
        {
            j = j + 1;
        }
        if j == pat.len() {
            proof {
                assert(s@.subrange(i as int, i + pat@.len()) =~= pat@);
            }
            return i;
        }
        proof {
            assert(s@.subrange(i as int, i + pat@.len())[j as int] != pat@[j as int]);
        }
        i = i + 1;
    }
    s.len()
}

/// `str::split` with a non-empty string pattern, collected.
pub fn split_on(s: &Vec<char>, pat: &Vec<char>) -> (parts: Vec<Vec<char>>)
    requires
        pat@.len() > 0,
    ensures
        views(parts@) == split_str(s@, pat@),
        parts@.len() >= 1,
{
    let mut parts: Vec<Vec<char>> = Vec::new();
    let mut start: usize = 0;
    loop
        invariant
            pat@.len() > 0,
            start <= s@.len(),
            views(parts@) + split_from(s@, pat@, start as int) == split_str(s@, pat@),
        decreases s@.len() - start,
    {
        let k = find_from(s, pat, start);
        proof {
            lemma_match_from_bounds(s@, pat@, start as int);
        }
        let ghost before = views(parts@);
        if k >= s.len() {
            parts.push(slice_chars(s, start, s.len()));
            proof {
                assert(split_from(s@, pat@, start as int) == seq![s@.subrange(start as int, s@.len() as int)]);
                assert(views(parts@) =~= before.push(s@.subrange(start as int, s@.len() as int)));
                assert(views(parts@) =~= before + split_from(s@, pat@, start as int));
            }
            return parts;
        }
        parts.push(slice_chars(s, start, k));
        proof {
            assert(split_from(s@, pat@, start as int) == seq![s@.subrange(start as int, k as int)]
                + split_from(s@, pat@, k + pat@.len()));
            assert(views(parts@) =~= before.push(s@.subrange(start as int, k as int)));
            assert(before.push(s@.subrange(start as int, k as int)) + split_from(s@, pat@, k + pat@.len())
                =~= before + (seq![s@.subrange(start as int, k as int)] + split_from(s@, pat@, k + pat@.len())));
        }
        start = k + pat.len();
    }
}

/// `s` without trailing Unicode whitespace (what `str::trim_end` returns).
pub open spec fn trim_end(s: Seq<char>) -> Seq<char> {
    s.take(s.len() - trailing_space(s))
}

/// `str::trim_end`, on characters.
pub fn trim_end_chars(s: &Vec<char>) -> (r: Vec<char>)
    ensures
        r@ == trim_end(s@),
{
    let mut end = s.len();
    proof {
        assert(s@.take(s@.len() as int) =~= s@);
    }
    while end > 0 && is_space_exec(s[end - 1])
        invariant
            end <= s@.len(),
            trailing_space(s@) == (s@.len() - end) + trailing_space(s@.take(end as int)),
        decreases end,
    {
        proof {
            assert(s@.take(end as int).drop_last() =~= s@.take(end - 1));
            assert(s@.take(end as int).last() == s@[end - 1]);
        }
        end = end - 1;
    }
    proof {
        assert(s@.take(s@.len() as int) =~= s@);
        if end > 0 {
            assert(s@.take(end as int).last() == s@[end - 1]);
        }
        assert(trailing_space(s@.take(end as int)) == 0);
    }
    slice_chars(s, 0, end)
}

} // verus!
