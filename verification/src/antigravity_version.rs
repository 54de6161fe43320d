//! Typed Antigravity release-version preflight.

use vstd::prelude::*;

use crate::error::AgyError;
use crate::text::{all_digits, decimal, digit_value, digits_value, fields, fields_of, is_digit, is_digit_exec, lemma_run_to, lemma_run_to_bound, push_decimal, run_to, string_from_chars, views};

verus! {

/// One official bare `X.Y.Z` release version with semantic numeric ordering.
#[derive(Clone, Copy, Debug, PartialEq, Eq, PartialOrd, Ord, Hash, Structural)]
pub struct AgyVersion {
    pub major: u64,
    pub minor: u64,
    pub patch: u64,
}

/// A canonical decimal: ASCII digits without a superfluous leading zero, fitting in `u64`.
pub open spec fn canonical_decimal(s: Seq<char>) -> bool {
    s.len() > 0 && all_digits(s) && (s.len() == 1 || s[0] != '0') && digits_value(s) <= u64::MAX
}

/// Bytes read one character per byte; ASCII bytes keep their meaning.
pub open spec fn byte_chars(b: Seq<u8>) -> Seq<char> {
    Seq::new(b.len(), |i: int| b[i] as char)
}

/// The single output line without its `\n` or `\r\n` terminator.
pub open spec fn output_line(b: Seq<u8>) -> Option<Seq<u8>> {
    if b.len() >= 2 && b[b.len() - 2] == 13u8 && b[b.len() - 1] == 10u8 {
        Some(b.take(b.len() - 2))
    } else if b.len() >= 1 && b[b.len() - 1] == 10u8 {
        Some(b.take(b.len() - 1))
    } else {
        None
    }
}

/// The version printed by `agy --version`: one line `X.Y.Z` of canonical decimals.
pub open spec fn printed_version(b: Seq<u8>) -> Option<AgyVersion> {
    match output_line(b) {
        None => None,
        Some(line) => {
            let parts = fields(byte_chars(line), '.');
            if parts.len() == 3 && canonical_decimal(parts[0]) && canonical_decimal(parts[1])
                && canonical_decimal(parts[2]) {
                Some(
                    AgyVersion {
                        major: digits_value(parts[0]) as u64,
                        minor: digits_value(parts[1]) as u64,
                        patch: digits_value(parts[2]) as u64,
                    },
                )
            } else {
                None
            }
        },
    }
}

/// Semantic version order: `a` is at least `b`.
pub open spec fn version_at_least(a: AgyVersion, b: AgyVersion) -> bool {
    a.major > b.major || (a.major == b.major && (a.minor > b.minor || (a.minor == b.minor
        && a.patch >= b.patch)))
}

/// The oldest supported release, 1.1.10.
pub open spec fn minimum_version() -> AgyVersion {
    AgyVersion { major: 1, minor: 1, patch: 10 }
}

impl AgyVersion {
    /// A version from its three numbers.
    pub fn new(major: u64, minor: u64, patch: u64) -> (v: AgyVersion)
        ensures
            v == (AgyVersion { major, minor, patch }),
    {
        AgyVersion { major, minor, patch }
    }

    /// One canonical decimal component.
    pub fn parse_decimal(value: Option<&Vec<char>>) -> (r: Result<u64, AgyError>)
        ensures
            match r {
                Ok(n) => value is Some && canonical_decimal(value->0@) && n == digits_value(value->0@),
                Err(e) => e == AgyError::OutputInvalid && !(value is Some && canonical_decimal(value->0@)),
            },
    {
        let text = match value {
            Some(v) => v,
            None => {
                return Err(AgyError::OutputInvalid);
            },
        };
        if text.len() == 0 || (text.len() > 1 && text[0] == '0') {
            return Err(AgyError::OutputInvalid);
        }
        let mut i: usize = 0;
        while i < text.len()
            invariant
                i <= text@.len(),
                value is Some && value->0@ == text@,
                forall|k: int| 0 <= k < i ==> is_digit(#[trigger] text@[k]),
            decreases text@.len() - i,
        {
            if !is_digit_exec(text[i]) {
                proof {
                    assert(!is_digit(text@[i as int]));
                    assert(!all_digits(text@));
                }
                return Err(AgyError::OutputInvalid);
            }
            i = i + 1;
        }
        proof {
            assert(all_digits(text@));
            assert(text@[0] != '+');
        }
        match crate::text::parse_unsigned_exec(text, u64::MAX) {
            Some(n) => Ok(n),
            None => Err(AgyError::OutputInvalid),
        }
    }

    /// The version printed by `agy --version`.
    pub fn parse_output(output: &[u8]) -> (r: Result<AgyVersion, AgyError>)
        ensures
            match r {
                Ok(v) => printed_version(output@) == Some(v),
                Err(e) => e == AgyError::OutputInvalid && printed_version(output@) is None,
            },
    {
        let n = output.len();
        let line_len = if n >= 2 && output[n - 2] == 13u8 && output[n - 1] == 10u8 {
            n - 2
        } else if n >= 1 && output[n - 1] == 10u8 {
            n - 1
        } else {
            return Err(AgyError::OutputInvalid);
        };
        let mut line: Vec<char> = Vec::new();
        let mut i: usize = 0;
        while i < line_len
            invariant
                line_len <= output@.len(),
                i <= line_len,
                line@ == byte_chars(output@.take(i as int)),
            decreases line_len - i,
        {
            line.push(output[i] as char);
            i = i + 1;
            proof {
                assert(line@ =~= byte_chars(output@.take(i as int)));
            }
        }
        proof {
            assert(output_line(output@) == Some(output@.take(line_len as int)));
        }
        let parts = fields_of(&line, '.');
        proof {
            let p = views(parts@);
            assert(p.len() == parts@.len());
            assert(forall|k: int| 0 <= k < p.len() ==> p[k] == parts@[k]@);
        }
        if parts.len() != 3 {
            return Err(AgyError::OutputInvalid);
        }
        let major = Self::parse_decimal(Some(&parts[0]))?;
        let minor = Self::parse_decimal(Some(&parts[1]))?;
        let patch = Self::parse_decimal(Some(&parts[2]))?;
        Ok(AgyVersion::new(major, minor, patch))
    }

    /// Semantic order: this version is at least `other`.
    pub fn is_at_least(&self, other: &AgyVersion) -> (r: bool)
        ensures
            r == version_at_least(*self, *other),
    {
        self.major > other.major || (self.major == other.major && (self.minor > other.minor || (
        self.minor == other.minor && self.patch >= other.patch)))
    }
}

/// The oldest supported release.
pub fn minimum_supported_version() -> (v: AgyVersion)
    ensures
        v == minimum_version(),
{
    AgyVersion::new(1, 1, 10)
}

/// Accept the `agy --version` output only for a supported release (1.1.10 or later).
pub fn require_supported_output(output: &[u8]) -> (r: Result<AgyVersion, AgyError>)
    ensures
        match r {
            Ok(v) => printed_version(output@) == Some(v) && version_at_least(v, minimum_version()),
            Err(e) => e == AgyError::OutputInvalid && !(printed_version(output@) matches Some(v)
                && version_at_least(v, minimum_version())),
        },
{
    let version = AgyVersion::parse_output(output)?;
    if version.is_at_least(&minimum_supported_version()) {
        Ok(version)
    } else {
        Err(AgyError::OutputInvalid)
    }
}

} // verus!

verus! {

/// A version as `agy --version` prints it: `MAJOR.MINOR.PATCH` in decimal.
pub open spec fn version_text(v: AgyVersion) -> Seq<char> {
    decimal(v.major as nat) + "."@ + decimal(v.minor as nat) + "."@ + decimal(v.patch as nat)
}

/// The ASCII bytes of the decimal spelling of `n`.
pub open spec fn decimal_bytes(n: nat) -> Seq<u8>
    decreases n,
{
    if n < 10 {
        seq![(n + 48) as u8]
    } else {
        decimal_bytes(n / 10).push(((n % 10) + 48) as u8)
    }
}

/// The bytes of a version's text.
pub open spec fn version_bytes(v: AgyVersion) -> Seq<u8> {
    decimal_bytes(v.major as nat) + seq![46u8] + decimal_bytes(v.minor as nat) + seq![46u8]
        + decimal_bytes(v.patch as nat)
}

impl AgyVersion {
    /// The version's text, `MAJOR.MINOR.PATCH`.
    pub fn to_text(&self) -> (t: String)
        ensures
            t@ == version_text(*self),
    {
        proof {
            reveal_strlit(".");
        }
        let mut out: Vec<char> = Vec::new();
        push_decimal(&mut out, self.major);
        out.push('.');
        push_decimal(&mut out, self.minor);
        out.push('.');
        push_decimal(&mut out, self.patch);
        proof {
            assert(out@ =~= version_text(*self));
        }
        string_from_chars(out.as_slice())
    }
}

/// The decimal spelling of a number is canonical, spells that number, and its bytes read as it.
proof fn lemma_decimal_canonical(n: nat)
    ensures
        decimal(n).len() >= 1,
        all_digits(decimal(n)),
        n >= 1 ==> decimal(n)[0] != '0',
        digits_value(decimal(n)) == n,
        byte_chars(decimal_bytes(n)) == decimal(n),
        decimal_bytes(n).len() == decimal(n).len(),
    decreases n,
{
    if n < 10 {
        let d = decimal(n);
        assert(d == seq![(n + 48) as char]);
        assert(d.drop_last() =~= Seq::<char>::empty());
        assert(digits_value(Seq::<char>::empty()) == 0);
        assert(((n + 48) as char) as u32 == n + 48);
        assert(byte_chars(decimal_bytes(n)) =~= d);
    } else {
        lemma_decimal_canonical(n / 10);
        let d = decimal(n);
        let p = decimal(n / 10);
        assert(d == p.push(((n % 10) + 48) as char));
        assert(d.drop_last() =~= p);
        assert(d[0] == p[0]);
        assert((((n % 10) + 48) as char) as u32 == (n % 10) + 48);
        assert(n == (n / 10) * 10 + n % 10);
        assert forall|i: int| 0 <= i < d.len() implies is_digit(#[trigger] d[i]) by {
            if i < p.len() {
                assert(d[i] == p[i]);
            }
        }
        let pb = decimal_bytes(n / 10);
        assert(decimal_bytes(n) == pb.push(((n % 10) + 48) as u8));
        assert forall|i: int| 0 <= i < d.len() implies #[trigger] byte_chars(decimal_bytes(n))[i] == d[i] by {
            if i < p.len() {
                assert(byte_chars(pb)[i] == p[i]);
            }
        }
        assert(byte_chars(decimal_bytes(n)) =~= d);
    }
}

/// Three dot-free texts joined by dots split back into themselves.
proof fn lemma_three_fields(a: Seq<char>, b: Seq<char>, c: Seq<char>)
    requires
        all_digits(a),
        all_digits(b),
        all_digits(c),
    ensures
        fields(a + seq!['.'] + b + seq!['.'] + c, '.') == seq![a, b, c],
{
    let t = a + seq!['.'] + b + seq!['.'] + c;
    let rest = b + seq!['.'] + c;
    assert forall|i: int| 0 <= i < a.len() implies #[trigger] t[i] != '.' by {
        assert(t[i] == a[i] && is_digit(a[i]));
    }
    lemma_run_to(t, '.', a.len() as int);
    assert(t.take(a.len() as int) =~= a);
    assert(t.skip(a.len() + 1 as int) =~= rest);
    assert forall|i: int| 0 <= i < b.len() implies #[trigger] rest[i] != '.' by {
        assert(rest[i] == b[i] && is_digit(b[i]));
    }
    lemma_run_to(rest, '.', b.len() as int);
    assert(rest.take(b.len() as int) =~= b);
    assert(rest.skip(b.len() + 1 as int) =~= c);
    assert forall|i: int| 0 <= i < c.len() implies #[trigger] c[i] != '.' by {
        assert(is_digit(c[i]));
    }
    lemma_run_to(c, '.', c.len() as int);
    assert(fields(c, '.') == seq![c]);
    assert(fields(rest, '.') =~= seq![b, c]);
    assert(fields(t, '.') =~= seq![a, b, c]);
}

/// A version printed on one line, ended by `\n` or `\r\n`, parses back to that version, and
/// those bytes read as its text.
pub proof fn law_printed_version_reparses(v: AgyVersion)
    ensures
        byte_chars(version_bytes(v)) == version_text(v),
        printed_version(version_bytes(v).push(10u8)) == Some(v),
        printed_version(version_bytes(v).push(13u8).push(10u8)) == Some(v),
{
    reveal_strlit(".");
    lemma_decimal_canonical(v.major as nat);
    lemma_decimal_canonical(v.minor as nat);
    lemma_decimal_canonical(v.patch as nat);
    let a = decimal(v.major as nat);
    let b = decimal(v.minor as nat);
    let c = decimal(v.patch as nat);
    let line = version_bytes(v);
    assert((46u8 as char) == '.');
    assert(byte_chars(line) =~= a + seq!['.'] + b + seq!['.'] + c);
    assert(version_text(v) =~= a + seq!['.'] + b + seq!['.'] + c);
    lemma_three_fields(a, b, c);
    let last = decimal_bytes(v.patch as nat);
    assert(line[line.len() - 1] == last[last.len() - 1]);
    assert(byte_chars(last)[last.len() - 1] == c[c.len() - 1]);
    assert(is_digit(c[c.len() - 1]));
    assert(line[line.len() - 1] != 13u8);
    let lf = line.push(10u8);
    assert(lf.take(lf.len() - 1) =~= line);
    assert(output_line(lf) == Some(line));
    let crlf = line.push(13u8).push(10u8);
    assert(crlf.take(crlf.len() - 2) =~= line);
    assert(output_line(crlf) == Some(line));
}

} // verus!

verus! {

/// A run up to a separator stops at a separator.
proof fn lemma_run_to_stop(s: Seq<char>, sep: char)
    ensures
        run_to(s, sep) < s.len() ==> s[run_to(s, sep) as int] == sep,
    decreases s.len(),
{
    if s.len() > 0 && s[0] != sep {
        lemma_run_to_stop(s.drop_first(), sep);
        if run_to(s, sep) < s.len() {
            assert(s[run_to(s, sep) as int] == s.drop_first()[run_to(s.drop_first(), sep) as int]);
        }
    }
}

/// Text that splits into three fields is those fields joined by the separator.
proof fn lemma_three_fields_join(s: Seq<char>)
    requires
        fields(s, '.').len() == 3,
    ensures
        s == fields(s, '.')[0] + seq!['.'] + fields(s, '.')[1] + seq!['.'] + fields(s, '.')[2],
{
    lemma_run_to_bound(s, '.');
    lemma_run_to_stop(s, '.');
    let n = run_to(s, '.') as int;
    let rest = s.skip(n + 1);
    lemma_run_to_bound(rest, '.');
    lemma_run_to_stop(rest, '.');
    let m = run_to(rest, '.') as int;
    let tail = rest.skip(m + 1);
    lemma_run_to_bound(tail, '.');
    assert(n < s.len());
    assert(fields(s, '.') == seq![s.take(n)] + fields(rest, '.'));
    assert(m < rest.len());
    assert(fields(rest, '.') == seq![rest.take(m)] + fields(tail, '.'));
    assert(fields(tail, '.').len() == 1);
    if run_to(tail, '.') < tail.len() {
        assert(fields(tail, '.') == seq![tail.take(run_to(tail, '.') as int)] + fields(tail.skip(run_to(tail, '.') + 1 as int), '.'));
        assert(false);
    }
    assert(fields(tail, '.') == seq![tail]);
    assert(rest =~= rest.take(m) + seq!['.'] + tail);
    assert(s =~= s.take(n) + seq!['.'] + rest);
    assert(fields(s, '.')[0] == s.take(n));
    assert(fields(s, '.')[1] == rest.take(m));
    assert(fields(s, '.')[2] == tail);
}

/// Digits that do not start with zero are worth at least one.
proof fn lemma_leading_digit_positive(p: Seq<char>)
    requires
        p.len() >= 1,
        all_digits(p),
        p[0] != '0',
    ensures
        digits_value(p) >= 1,
    decreases p.len(),
{
    if p.len() > 1 {
        let q = p.drop_last();
        assert(q[0] == p[0]);
        lemma_leading_digit_positive(q);
    } else {
        assert(p.drop_last() =~= Seq::<char>::empty());
        assert(digits_value(Seq::<char>::empty()) == 0);
    }
}

/// A canonical decimal is the decimal spelling of its value.
proof fn lemma_canonical_is_decimal(p: Seq<char>)
    requires
        p.len() >= 1,
        all_digits(p),
        p.len() == 1 || p[0] != '0',
    ensures
        p == decimal(digits_value(p)),
    decreases p.len(),
{
    let n = digits_value(p);
    if p.len() == 1 {
        assert(p.drop_last() =~= Seq::<char>::empty());
        assert(digits_value(Seq::<char>::empty()) == 0);
        assert(n < 10);
        assert(((n + 48) as char) as u32 == n + 48);
        assert(p[0] as u32 == n + 48);
        assert(p =~= seq![(n + 48) as char]);
    } else {
        let q = p.drop_last();
        assert(q[0] == p[0]);
        lemma_canonical_is_decimal(q);
        lemma_leading_digit_positive(q);
        let d = digit_value(p.last());
        assert(d < 10);
        assert(n == digits_value(q) * 10 + d);
        assert(n >= 10);
        assert(n / 10 == digits_value(q));
        assert(n % 10 == d);
        assert((((n % 10) + 48) as char) as u32 == (n % 10) + 48);
        assert(p.last() as u32 == d + 48);
        assert(p =~= q.push(((n % 10) + 48) as char));
    }
}

/// Bytes are determined by the characters they read as.
proof fn lemma_byte_chars_injective(x: Seq<u8>, y: Seq<u8>)
    requires
        byte_chars(x) == byte_chars(y),
    ensures
        x == y,
{
    assert(x.len() == byte_chars(x).len());
    assert(y.len() == byte_chars(y).len());
    assert forall|i: int| 0 <= i < x.len() implies x[i] == y[i] by {
        assert(byte_chars(x)[i] == byte_chars(y)[i]);
        assert(byte_chars(x)[i] == x[i] as char);
        assert(byte_chars(y)[i] == y[i] as char);
        assert((x[i] as char) as u32 == x[i] as u32);
        assert((y[i] as char) as u32 == y[i] as u32);
        assert(x[i] as u32 == y[i] as u32);
        let a = x[i];
        let b = y[i];
        assert(a == b) by (bit_vector)
            requires
                a as u32 == b as u32;
    }
    assert(x =~= y);
}

/// The printed line, ended by `\n` or `\r\n`, is the only spelling of a version that parses.
pub proof fn law_version_has_one_spelling(s: Seq<u8>, v: AgyVersion)
    requires
        printed_version(s) == Some(v),
    ensures
        s == version_bytes(v).push(10u8) || s == version_bytes(v).push(13u8).push(10u8),
{
    let line = output_line(s)->0;
    let parts = fields(byte_chars(line), '.');
    lemma_three_fields_join(byte_chars(line));
    lemma_canonical_is_decimal(parts[0]);
    lemma_canonical_is_decimal(parts[1]);
    lemma_canonical_is_decimal(parts[2]);
    law_printed_version_reparses(v);
    reveal_strlit(".");
    assert(byte_chars(line) == version_text(v));
    lemma_byte_chars_injective(line, version_bytes(v));
    if s.len() >= 2 && s[s.len() - 2] == 13u8 && s[s.len() - 1] == 10u8 {
        assert(s =~= line.push(13u8).push(10u8));
    } else {
        assert(s =~= line.push(10u8));
    }
}

} // verus!

verus! {

/// Versions are ordered by their first differing number, major before minor before patch:
/// where the majors differ they alone decide, where only the minors differ they alone decide,
/// and where both agree the patches decide.
pub proof fn law_version_order_is_lexicographic(a: AgyVersion, b: AgyVersion)
    ensures
        a.major < b.major ==> !version_at_least(a, b),
        a.major > b.major ==> version_at_least(a, b),
        a.major == b.major && a.minor < b.minor ==> !version_at_least(a, b),
        a.major == b.major && a.minor > b.minor ==> version_at_least(a, b),
        a.major == b.major && a.minor == b.minor ==> (version_at_least(a, b) <==> b.patch <= a.patch),
{
}

/// The version order is a total order: any two versions compare, two versions each at least
/// the other are the same version, and the order is transitive.
pub proof fn law_version_order_is_total(a: AgyVersion, b: AgyVersion, c: AgyVersion)
    ensures
        version_at_least(a, b) || version_at_least(b, a),
        version_at_least(a, b) && version_at_least(b, a) ==> a == b,
        version_at_least(a, b) && version_at_least(b, c) ==> version_at_least(a, c),
        version_at_least(a, a),
{
}

/// A release is supported exactly when it is not older than 1.1.10: every 1.0.x and 0.x.y is
/// refused, every 1.1.x from patch 10 on and every later minor or major is accepted.
pub proof fn law_supported_releases(v: AgyVersion)
    ensures
        v.major == 0 ==> !version_at_least(v, minimum_version()),
        v.major == 1 && v.minor == 0 ==> !version_at_least(v, minimum_version()),
        v.major == 1 && v.minor == 1 ==> (version_at_least(v, minimum_version()) <==> v.patch >= 10),
        v.major == 1 && v.minor >= 2 ==> version_at_least(v, minimum_version()),
        v.major >= 2 ==> version_at_least(v, minimum_version()),
{
}

} // verus!
