//! Fuzzer option handling: a table of named options with defaults,
//! rendered to and parsed from human-readable texts (durations such as
//! `"20m"`, sizes such as `"2gb"`).

use crate::text::all_digits;
use crate::text::chars_of;
use crate::text::dec_digits;
use crate::text::dec_int;
use crate::text::dec_val;
use crate::text::i64_magnitude;
use crate::text::is_signed_text;
use crate::text::is_unsigned_text;
use crate::text::parse_digits;
use crate::text::parse_i64_chars;
use crate::text::parse_u64_chars;
use crate::text::signed_val;
use crate::text::str_eq;
use crate::text::u64_dec;
use crate::text::unsigned_digits;
use vstd::arithmetic::div_mod::lemma_fundamental_div_mod;
use vstd::arithmetic::div_mod::lemma_fundamental_div_mod_converse;
use vstd::prelude::*;
use vstd::string::StrSliceExecFns;
use vstd::string::StringExecFns;

verus! {

pub const NANOS_PER_MICRO: i64 = 1_000;

pub const NANOS_PER_MILLI: i64 = 1_000_000;

pub const NANOS_PER_SECOND: i64 = 1_000_000_000;

pub const NANOS_PER_MINUTE: i64 = 60_000_000_000;

pub const NANOS_PER_HOUR: i64 = 3_600_000_000_000;

pub const NANOS_PER_DAY: i64 = 86_400_000_000_000;

pub const BYTES_PER_KB: u64 = 1024;

pub const BYTES_PER_MB: u64 = 1_048_576;

pub const BYTES_PER_GB: u64 = 1_073_741_824;

/// Errors of the option surface.
#[derive(Debug, Clone, Copy, PartialEq, Eq, Structural)]
pub enum OptionsError {
    /// The option name is not one of the known options.
    UnknownOption,
    /// The value text cannot be parsed for the named option.
    InvalidValue,
}

/// The sequence wrapped in double quotes.
pub open spec fn quoted(s: Seq<char>) -> Seq<char> {
    "\""@ + s + "\""@
}

/// Quote-stripping: when the text has at least three characters and both
/// ends are double quotes, the quotes drop; otherwise it is unchanged.
pub open spec fn spec_strip_quotes(s: Seq<char>) -> Seq<char> {
    if s.len() >= 3 && s[0] == '"' && s.last() == '"' {
        s.subrange(1, s.len() - 1)
    } else {
        s
    }
}

/// Strip one pair of surrounding double quotes, if present.
pub fn strip_quotes(value: &str) -> (r: String)
    ensures
        r@ == spec_strip_quotes(value@),
{
    let n = value.unicode_len();
    if n >= 3 && value.get_char(0) == '"' && value.get_char(n - 1) == '"' {
        String::from_str(value.substring_char(1, n - 1))
    } else {
        String::from_str(value)
    }
}

/// A duration, rendered: `0` stays bare; otherwise the value is quoted
/// with the largest unit that divides it exactly, from days down to
/// nanoseconds.
pub open spec fn spec_format_duration(nanos: int) -> Seq<char> {
    if nanos == 0 {
        "0"@
    } else if nanos % (NANOS_PER_DAY as int) == 0 {
        quoted(dec_int(nanos / (NANOS_PER_DAY as int)) + "d"@)
    } else if nanos % (NANOS_PER_HOUR as int) == 0 {
        quoted(dec_int(nanos / (NANOS_PER_HOUR as int)) + "h"@)
    } else if nanos % (NANOS_PER_MINUTE as int) == 0 {
        quoted(dec_int(nanos / (NANOS_PER_MINUTE as int)) + "m"@)
    } else if nanos % (NANOS_PER_SECOND as int) == 0 {
        quoted(dec_int(nanos / (NANOS_PER_SECOND as int)) + "s"@)
    } else if nanos % (NANOS_PER_MILLI as int) == 0 {
        quoted(dec_int(nanos / (NANOS_PER_MILLI as int)) + "ms"@)
    } else if nanos % (NANOS_PER_MICRO as int) == 0 {
        quoted(dec_int(nanos / (NANOS_PER_MICRO as int)) + "us"@)
    } else {
        quoted(dec_int(nanos) + "ns"@)
    }
}

/// A size, rendered: `0` stays bare; otherwise the value is quoted with
/// the largest binary unit that divides it exactly.
pub open spec fn spec_format_size(bytes: int) -> Seq<char> {
    if bytes == 0 {
        "0"@
    } else if bytes % (BYTES_PER_GB as int) == 0 {
        quoted(dec_digits((bytes / (BYTES_PER_GB as int)) as nat) + "gb"@)
    } else if bytes % (BYTES_PER_MB as int) == 0 {
        quoted(dec_digits((bytes / (BYTES_PER_MB as int)) as nat) + "mb"@)
    } else if bytes % (BYTES_PER_KB as int) == 0 {
        quoted(dec_digits((bytes / (BYTES_PER_KB as int)) as nat) + "kb"@)
    } else {
        quoted(dec_digits(bytes as nat) + "b"@)
    }
}

/// A negated value is divisible exactly when its magnitude is, and exact
/// division commutes with negation.
proof fn lemma_divisible_signs(m: int, u: int)
    requires
        u > 0,
        m >= 0,
    ensures
        ((-m) % u == 0) <==> (m % u == 0),
        m % u == 0 ==> (-m) / u == -(m / u),
{
    lemma_fundamental_div_mod(m, u);
    let q = m / u;
    let r = m % u;
    if r == 0 {
        assert(-m == (-q) * u + 0) by (nonlinear_arith)
            requires
                m == u * q + r,
                r == 0,
        ;
        lemma_fundamental_div_mod_converse(-m, u, -q, 0);
    } else {
        assert(-m == (-q - 1) * u + (u - r)) by (nonlinear_arith)
            requires
                m == u * q + r,
        ;
        lemma_fundamental_div_mod_converse(-m, u, -q - 1, u - r);
    }
}

/// Quotient of a positive exact multiple is positive, and no larger than
/// the multiple.
proof fn lemma_exact_quotient_pos(m: int, u: int)
    requires
        u > 0,
        m > 0,
        m % u == 0,
    ensures
        m / u >= 1,
        m / u <= m,
{
    lemma_fundamental_div_mod(m, u);
    vstd::arithmetic::div_mod::lemma_div_nonincreasing(m, u);
    vstd::arithmetic::div_mod::lemma_div_basics_4(m, u);
}

/// Render a possibly negated quotient, quoted and suffixed with the unit.
fn render_quoted(neg: bool, q: u64, suffix: &str) -> (r: String)
    ensures
        r@ == quoted(
            (if neg {
                "-"@ + dec_digits(q as nat)
            } else {
                dec_digits(q as nat)
            }) + suffix@,
        ),
{
    let mut s = String::from_str("\"");
    if neg {
        s.append("-");
    }
    let digits = u64_dec(q);
    s.append(digits.as_str());
    s.append(suffix);
    s.append("\"");
    proof {
        assert(s@ =~= quoted(
            (if neg {
                "-"@ + dec_digits(q as nat)
            } else {
                dec_digits(q as nat)
            }) + suffix@,
        ));
    }
    s
}

/// Render a duration in nanoseconds; the caller supplies a present value.
pub fn format_duration(nanos: Option<i64>) -> (r: String)
    requires
        nanos is Some,
    ensures
        r@ == spec_format_duration(nanos->0 as int),
{
    let v = nanos.unwrap();
    if v == 0 {
        return String::from_str("0");
    }
    let neg = v < 0;
    let mag = i64_magnitude(v);
    proof {
        reveal_strlit("-");
        lemma_divisible_signs(mag as int, NANOS_PER_DAY as int);
        lemma_divisible_signs(mag as int, NANOS_PER_HOUR as int);
        lemma_divisible_signs(mag as int, NANOS_PER_MINUTE as int);
        lemma_divisible_signs(mag as int, NANOS_PER_SECOND as int);
        lemma_divisible_signs(mag as int, NANOS_PER_MILLI as int);
        lemma_divisible_signs(mag as int, NANOS_PER_MICRO as int);
        if mag % (NANOS_PER_DAY as u64) == 0 {
            lemma_exact_quotient_pos(mag as int, NANOS_PER_DAY as int);
        }
        if mag % (NANOS_PER_HOUR as u64) == 0 {
            lemma_exact_quotient_pos(mag as int, NANOS_PER_HOUR as int);
        }
        if mag % (NANOS_PER_MINUTE as u64) == 0 {
            lemma_exact_quotient_pos(mag as int, NANOS_PER_MINUTE as int);
        }
        if mag % (NANOS_PER_SECOND as u64) == 0 {
            lemma_exact_quotient_pos(mag as int, NANOS_PER_SECOND as int);
        }
        if mag % (NANOS_PER_MILLI as u64) == 0 {
            lemma_exact_quotient_pos(mag as int, NANOS_PER_MILLI as int);
        }
        if mag % (NANOS_PER_MICRO as u64) == 0 {
            lemma_exact_quotient_pos(mag as int, NANOS_PER_MICRO as int);
        }
    }
    if mag % (NANOS_PER_DAY as u64) == 0 {
        render_quoted(neg, mag / (NANOS_PER_DAY as u64), "d")
    } else if mag % (NANOS_PER_HOUR as u64) == 0 {
        render_quoted(neg, mag / (NANOS_PER_HOUR as u64), "h")
    } else if mag % (NANOS_PER_MINUTE as u64) == 0 {
        render_quoted(neg, mag / (NANOS_PER_MINUTE as u64), "m")
    } else if mag % (NANOS_PER_SECOND as u64) == 0 {
        render_quoted(neg, mag / (NANOS_PER_SECOND as u64), "s")
    } else if mag % (NANOS_PER_MILLI as u64) == 0 {
        render_quoted(neg, mag / (NANOS_PER_MILLI as u64), "ms")
    } else if mag % (NANOS_PER_MICRO as u64) == 0 {
        render_quoted(neg, mag / (NANOS_PER_MICRO as u64), "us")
    } else {
        render_quoted(neg, mag, "ns")
    }
}

/// Render a size in bytes; the caller supplies a present value.
pub fn format_size(bytes: Option<u64>) -> (r: String)
    requires
        bytes is Some,
    ensures
        r@ == spec_format_size(bytes->0 as int),
{
    let v = bytes.unwrap();
    if v == 0 {
        return String::from_str("0");
    }
    if v % BYTES_PER_GB == 0 {
        render_quoted(false, v / BYTES_PER_GB, "gb")
    } else if v % BYTES_PER_MB == 0 {
        render_quoted(false, v / BYTES_PER_MB, "mb")
    } else if v % BYTES_PER_KB == 0 {
        render_quoted(false, v / BYTES_PER_KB, "kb")
    } else {
        render_quoted(false, v, "b")
    }
}

/// The text is a non-empty digit run followed by exactly this suffix.
pub open spec fn suffixed_digits(t: Seq<char>, suffix: Seq<char>) -> bool {
    t.len() > suffix.len() && t.skip(t.len() - suffix.len()) == suffix && all_digits(
        t.take(t.len() - suffix.len()),
    )
}

/// The value of the digit run before the suffix.
pub open spec fn suffixed_val(t: Seq<char>, suffix: Seq<char>) -> int {
    dec_val(t.take(t.len() - suffix.len()))
}

/// A non-negative value that must fit in an `i64`.
pub open spec fn fit_i64(v: int) -> Option<int> {
    if v <= i64::MAX {
        Some(v)
    } else {
        None
    }
}

/// A non-negative value that must fit in a `u64`.
pub open spec fn fit_u64(v: int) -> Option<int> {
    if v <= u64::MAX {
        Some(v)
    } else {
        None
    }
}

/// The two's-complement reading of a `u64` value as an `i64` (the plain
/// duration fallback parses an unsigned number and reinterprets it).
pub open spec fn wrap_u64_to_i64(v: int) -> int {
    if v <= i64::MAX {
        v
    } else {
        v - 0x1_0000_0000_0000_0000
    }
}

/// A duration text, parsed: after quote-stripping, a digit run with one
/// of the unit suffixes (nanoseconds through days, the first matching
/// suffix winning), scaled to nanoseconds; or a bare unsigned number read
/// as nanoseconds.  `None` where the text has no such form or a value
/// overflows.
pub open spec fn spec_parse_duration(s: Seq<char>) -> Option<int> {
    let t = spec_strip_quotes(s);
    if suffixed_digits(t, "ns"@) {
        fit_i64(suffixed_val(t, "ns"@))
    } else if suffixed_digits(t, "us"@) {
        fit_i64(suffixed_val(t, "us"@) * (NANOS_PER_MICRO as int))
    } else if suffixed_digits(t, "ms"@) {
        fit_i64(suffixed_val(t, "ms"@) * (NANOS_PER_MILLI as int))
    } else if suffixed_digits(t, "s"@) {
        fit_i64(suffixed_val(t, "s"@) * (NANOS_PER_SECOND as int))
    } else if suffixed_digits(t, "m"@) {
        fit_i64(suffixed_val(t, "m"@) * (NANOS_PER_MINUTE as int))
    } else if suffixed_digits(t, "h"@) {
        fit_i64(suffixed_val(t, "h"@) * (NANOS_PER_HOUR as int))
    } else if suffixed_digits(t, "d"@) {
        fit_i64(suffixed_val(t, "d"@) * (NANOS_PER_DAY as int))
    } else if is_unsigned_text(t) && dec_val(unsigned_digits(t)) <= u64::MAX {
        Some(wrap_u64_to_i64(dec_val(unsigned_digits(t))))
    } else {
        None
    }
}

/// A size text, parsed: after quote-stripping, a digit run with one of
/// the binary unit suffixes, scaled to bytes; or a bare unsigned number.
pub open spec fn spec_parse_size(s: Seq<char>) -> Option<int> {
    let t = spec_strip_quotes(s);
    if suffixed_digits(t, "b"@) {
        fit_u64(suffixed_val(t, "b"@))
    } else if suffixed_digits(t, "kb"@) {
        fit_u64(suffixed_val(t, "kb"@) * (BYTES_PER_KB as int))
    } else if suffixed_digits(t, "mb"@) {
        fit_u64(suffixed_val(t, "mb"@) * (BYTES_PER_MB as int))
    } else if suffixed_digits(t, "gb"@) {
        fit_u64(suffixed_val(t, "gb"@) * (BYTES_PER_GB as int))
    } else if is_unsigned_text(t) && dec_val(unsigned_digits(t)) <= u64::MAX {
        Some(dec_val(unsigned_digits(t)))
    } else {
        None
    }
}

/// The character vector ends with the given suffix.
fn ends_with(t: &Vec<char>, suffix: &Vec<char>) -> (r: bool)
    requires
        suffix@.len() <= t@.len(),
    ensures
        r == (t@.skip(t@.len() - suffix@.len()) == suffix@),
{
    let n = t.len();
    let m = suffix.len();
    let mut i: usize = 0;
    while i < m
        invariant
            0 <= i <= m <= n,
            n == t@.len(),
            m == suffix@.len(),
            forall|k: int| 0 <= k < i ==> t@[n - m + k] == suffix@[k],
        decreases m - i,
    {
        if t[n - m + i] != suffix[i] {
            proof {
                assert(t@.skip(n - m as int)[i as int] == t@[n - m + i]);
            }
            return false;
        }
        i = i + 1;
    }
    proof {
        assert(t@.skip(n - m as int) =~= suffix@);
    }
    true
}

/// Result of matching one unit suffix against a text.
enum SuffixParse {
    /// The text is not a digit run with this suffix.
    NoMatch,
    /// The shape matches but the digits overflow a `u64`.
    Overflow,
    /// The digit run's value.
    Value(u64),
}

/// Digits everywhere in `t[from..to]`.
fn digits_only(t: &Vec<char>, from: usize, to: usize) -> (r: bool)
    requires
        from <= to <= t@.len(),
    ensures
        r == all_digits(t@.subrange(from as int, to as int)),
{
    let ghost d = t@.subrange(from as int, to as int);
    let mut i: usize = from;
    while i < to
        invariant
            from <= i <= to <= t@.len(),
            d == t@.subrange(from as int, to as int),
            forall|k: int| 0 <= k < i - from ==> crate::text::is_digit(#[trigger] d[k]),
        decreases to - i,
    {
        let c = t[i];
        proof {
            assert(d[i - from as int] == t@[i as int]);
        }
        if !(c >= '0' && c <= '9') {
            return false;
        }
        i = i + 1;
    }
    true
}

/// Parse `t` as a digit run with the given suffix.
fn try_suffixed(t: &Vec<char>, suffix: &Vec<char>) -> (r: SuffixParse)
    ensures
        r is NoMatch <==> !suffixed_digits(t@, suffix@),
        r is Overflow <==> suffixed_digits(t@, suffix@) && suffixed_val(t@, suffix@) > u64::MAX,
        r matches SuffixParse::Value(v) ==> suffixed_digits(t@, suffix@) && v as int
            == suffixed_val(t@, suffix@) <= u64::MAX,
{
    if t.len() > suffix.len() {
        if ends_with(t, suffix) {
            let cut = t.len() - suffix.len();
            proof {
                assert(t@.subrange(0, cut as int) =~= t@.take(cut as int));
            }
            if digits_only(t, 0, cut) {
                match parse_digits(t, 0, cut) {
                    Some(v) => SuffixParse::Value(v),
                    None => SuffixParse::Overflow,
                }
            } else {
                SuffixParse::NoMatch
            }
        } else {
            SuffixParse::NoMatch
        }
    } else {
        SuffixParse::NoMatch
    }
}

/// Scale a parsed count by its unit in nanoseconds, failing on overflow
/// of the `i64` range.
fn scale_nanos(d: u64, unit: i64) -> (r: Result<i64, OptionsError>)
    requires
        1 <= unit,
    ensures
        match fit_i64(d as int * unit as int) {
            Some(v) => r matches Ok(x) && x as int == v,
            None => r == Err::<i64, OptionsError>(OptionsError::InvalidValue),
        },
{
    match d.checked_mul(unit as u64) {
        Some(p) => {
            if p <= 0x7fff_ffff_ffff_ffffu64 {
                Ok(p as i64)
            } else {
                Err(OptionsError::InvalidValue)
            }
        },
        None => Err(OptionsError::InvalidValue),
    }
}

/// Scale a parsed count by its unit in bytes, failing on overflow of the
/// `u64` range.
fn scale_bytes(d: u64, unit: u64) -> (r: Result<u64, OptionsError>)
    requires
        1 <= unit,
    ensures
        match fit_u64(d as int * unit as int) {
            Some(v) => r matches Ok(x) && x as int == v,
            None => r == Err::<u64, OptionsError>(OptionsError::InvalidValue),
        },
{
    match d.checked_mul(unit) {
        Some(p) => Ok(p),
        None => Err(OptionsError::InvalidValue),
    }
}

/// Parse a duration text into nanoseconds.
pub fn parse_duration(value: &str) -> (r: Result<i64, OptionsError>)
    ensures
        match spec_parse_duration(value@) {
            Some(v) => r matches Ok(x) && x as int == v,
            None => r == Err::<i64, OptionsError>(OptionsError::InvalidValue),
        },
{
    let stripped = strip_quotes(value);
    let t = chars_of(stripped.as_str());
    let sfx = chars_of("ns");
    match try_suffixed(&t, &sfx) {
        SuffixParse::Value(d) => {
            return scale_nanos(d, 1);
        },
        SuffixParse::Overflow => {
            return Err(OptionsError::InvalidValue);
        },
        SuffixParse::NoMatch => {},
    }
    let sfx = chars_of("us");
    match try_suffixed(&t, &sfx) {
        SuffixParse::Value(d) => {
            return scale_nanos(d, NANOS_PER_MICRO);
        },
        SuffixParse::Overflow => {
            return Err(OptionsError::InvalidValue);
        },
        SuffixParse::NoMatch => {},
    }
    let sfx = chars_of("ms");
    match try_suffixed(&t, &sfx) {
        SuffixParse::Value(d) => {
            return scale_nanos(d, NANOS_PER_MILLI);
        },
        SuffixParse::Overflow => {
            return Err(OptionsError::InvalidValue);
        },
        SuffixParse::NoMatch => {},
    }
    let sfx = chars_of("s");
    match try_suffixed(&t, &sfx) {
        SuffixParse::Value(d) => {
            return scale_nanos(d, NANOS_PER_SECOND);
        },
        SuffixParse::Overflow => {
            return Err(OptionsError::InvalidValue);
        },
        SuffixParse::NoMatch => {},
    }
    let sfx = chars_of("m");
    match try_suffixed(&t, &sfx) {
        SuffixParse::Value(d) => {
            return scale_nanos(d, NANOS_PER_MINUTE);
        },
        SuffixParse::Overflow => {
            return Err(OptionsError::InvalidValue);
        },
        SuffixParse::NoMatch => {},
    }
    let sfx = chars_of("h");
    match try_suffixed(&t, &sfx) {
        SuffixParse::Value(d) => {
            return scale_nanos(d, NANOS_PER_HOUR);
        },
        SuffixParse::Overflow => {
            return Err(OptionsError::InvalidValue);
        },
        SuffixParse::NoMatch => {},
    }
    let sfx = chars_of("d");
    match try_suffixed(&t, &sfx) {
        SuffixParse::Value(d) => {
            return scale_nanos(d, NANOS_PER_DAY);
        },
        SuffixParse::Overflow => {
            return Err(OptionsError::InvalidValue);
        },
        SuffixParse::NoMatch => {},
    }
    match parse_u64_chars(&t) {
        Some(v) => {
            if v <= 0x7fff_ffff_ffff_ffffu64 {
                Ok(v as i64)
            } else {
                let off = v - 9223372036854775808u64;
                if off == 0 {
                    Ok(i64::MIN)
                } else {
                    Ok(-((9223372036854775808u64 - off) as i64))
                }
            }
        },
        None => Err(OptionsError::InvalidValue),
    }
}

/// Parse a size text into bytes.
pub fn parse_size(value: &str) -> (r: Result<u64, OptionsError>)
    ensures
        match spec_parse_size(value@) {
            Some(v) => r matches Ok(x) && x as int == v,
            None => r == Err::<u64, OptionsError>(OptionsError::InvalidValue),
        },
{
    let stripped = strip_quotes(value);
    let t = chars_of(stripped.as_str());
    let sfx = chars_of("b");
    match try_suffixed(&t, &sfx) {
        SuffixParse::Value(d) => {
            return scale_bytes(d, 1);
        },
        SuffixParse::Overflow => {
            return Err(OptionsError::InvalidValue);
        },
        SuffixParse::NoMatch => {},
    }
    let sfx = chars_of("kb");
    match try_suffixed(&t, &sfx) {
        SuffixParse::Value(d) => {
            return scale_bytes(d, BYTES_PER_KB);
        },
        SuffixParse::Overflow => {
            return Err(OptionsError::InvalidValue);
        },
        SuffixParse::NoMatch => {},
    }
    let sfx = chars_of("mb");
    match try_suffixed(&t, &sfx) {
        SuffixParse::Value(d) => {
            return scale_bytes(d, BYTES_PER_MB);
        },
        SuffixParse::Overflow => {
            return Err(OptionsError::InvalidValue);
        },
        SuffixParse::NoMatch => {},
    }
    let sfx = chars_of("gb");
    match try_suffixed(&t, &sfx) {
        SuffixParse::Value(d) => {
            return scale_bytes(d, BYTES_PER_GB);
        },
        SuffixParse::Overflow => {
            return Err(OptionsError::InvalidValue);
        },
        SuffixParse::NoMatch => {},
    }
    match parse_u64_chars(&t) {
        Some(v) => Ok(v),
        None => Err(OptionsError::InvalidValue),
    }
}


/// A quoted rendering strips back to its body.
proof fn lemma_strip_quoted(s: Seq<char>)
    requires
        s.len() >= 1,
    ensures
        spec_strip_quotes(quoted(s)) == s,
{
    reveal_strlit("\"");
    let q = quoted(s);
    assert(q.len() == s.len() + 2);
    assert(q[0] == '"');
    assert(q.last() == '"');
    assert(q.subrange(1, q.len() - 1) =~= s);
}

/// A digit run with this suffix matches exactly this suffix form, and its
/// value is the run's.
proof fn lemma_render_matches(q: nat, suffix: Seq<char>)
    requires
        suffix.len() >= 1,
    ensures
        suffixed_digits(dec_digits(q) + suffix, suffix),
        suffixed_val(dec_digits(q) + suffix, suffix) == q,
{
    crate::text::lemma_dec_digits_are_digits(q);
    crate::text::lemma_dec_digits_value(q);
    let t = dec_digits(q) + suffix;
    assert(t.skip(t.len() - suffix.len()) =~= suffix);
    assert(t.take(t.len() - suffix.len()) =~= dec_digits(q));
}

/// A text whose `k`-th character from the end differs from the suffix's
/// is not a digit run with that suffix.
proof fn lemma_not_suffixed_by_char(t: Seq<char>, other: Seq<char>, k: int)
    requires
        1 <= k <= other.len() <= t.len(),
        t[t.len() - k] != other[other.len() - k],
    ensures
        !suffixed_digits(t, other),
{
    if t.len() > other.len() {
        assert(t.skip(t.len() - other.len())[other.len() - k] == t[t.len() - k]);
    }
}

/// A text with a non-digit before the suffix window is not a digit run
/// with that suffix.
proof fn lemma_not_suffixed_by_nondigit(t: Seq<char>, other: Seq<char>, p: int)
    requires
        other.len() < t.len(),
        0 <= p < t.len() - other.len(),
        !crate::text::is_digit(t[p]),
    ensures
        !suffixed_digits(t, other),
{
    assert(t.take(t.len() - other.len())[p] == t[p]);
}

/// Law: rendering a size and parsing the text back yields the size again.
pub proof fn lemma_size_round_trip(v: u64)
    ensures
        spec_parse_size(spec_format_size(v as int)) == Some(v as int),
{
    reveal_strlit("\"");
    reveal_strlit("0");
    reveal_strlit("b");
    reveal_strlit("kb");
    reveal_strlit("mb");
    reveal_strlit("gb");
    if v == 0 {
        let t = spec_strip_quotes("0"@);
        assert(t =~= "0"@);
        assert(t.len() == 1);
        assert(!suffixed_digits(t, "b"@));
        assert(!suffixed_digits(t, "kb"@));
        assert(!suffixed_digits(t, "mb"@));
        assert(!suffixed_digits(t, "gb"@));
        assert(unsigned_digits(t) == t);
        assert(crate::text::is_digit(t[0]));
        assert(all_digits(t));
        assert(t.drop_last() =~= Seq::<char>::empty());
        assert(dec_val(t) == dec_val(t.drop_last()) * 10 + crate::text::digit_val(t.last()));
        assert(dec_val(t) == 0);
    } else if v as int % (BYTES_PER_GB as int) == 0 {
        let q = (v / BYTES_PER_GB) as nat;
        let t = dec_digits(q) + "gb"@;
        crate::text::lemma_dec_digits_are_digits(q);
        lemma_strip_quoted(t);
        assert(t[t.len() - 2] == 'g');
        assert(t[t.len() - 1] == 'b');
        lemma_not_suffixed_by_nondigit(t, "b"@, t.len() - 2);
        lemma_not_suffixed_by_char(t, "kb"@, 2);
        lemma_not_suffixed_by_char(t, "mb"@, 2);
        lemma_render_matches(q, "gb"@);
        lemma_fundamental_div_mod(v as int, BYTES_PER_GB as int);
    } else if v as int % (BYTES_PER_MB as int) == 0 {
        let q = (v / BYTES_PER_MB) as nat;
        let t = dec_digits(q) + "mb"@;
        crate::text::lemma_dec_digits_are_digits(q);
        lemma_strip_quoted(t);
        assert(t[t.len() - 2] == 'm');
        lemma_not_suffixed_by_nondigit(t, "b"@, t.len() - 2);
        lemma_not_suffixed_by_char(t, "kb"@, 2);
        lemma_render_matches(q, "mb"@);
        lemma_fundamental_div_mod(v as int, BYTES_PER_MB as int);
    } else if v as int % (BYTES_PER_KB as int) == 0 {
        let q = (v / BYTES_PER_KB) as nat;
        let t = dec_digits(q) + "kb"@;
        crate::text::lemma_dec_digits_are_digits(q);
        lemma_strip_quoted(t);
        assert(t[t.len() - 2] == 'k');
        lemma_not_suffixed_by_nondigit(t, "b"@, t.len() - 2);
        lemma_render_matches(q, "kb"@);
        lemma_fundamental_div_mod(v as int, BYTES_PER_KB as int);
    } else {
        let t = dec_digits(v as nat) + "b"@;
        lemma_strip_quoted(t);
        lemma_render_matches(v as nat, "b"@);
    }
}


/// Law: rendering a non-negative duration and parsing the text back
/// yields the duration again.
pub proof fn lemma_duration_round_trip(v: i64)
    requires
        v >= 0,
    ensures
        spec_parse_duration(spec_format_duration(v as int)) == Some(v as int),
{
    reveal_strlit("\"");
    reveal_strlit("0");
    reveal_strlit("ns");
    reveal_strlit("us");
    reveal_strlit("ms");
    reveal_strlit("s");
    reveal_strlit("m");
    reveal_strlit("h");
    reveal_strlit("d");
    if v == 0 {
        let t = spec_strip_quotes("0"@);
        assert(t =~= "0"@);
        assert(t.len() == 1);
        assert(!suffixed_digits(t, "ns"@));
        assert(!suffixed_digits(t, "us"@));
        assert(!suffixed_digits(t, "ms"@));
        assert(!suffixed_digits(t, "s"@));
        assert(!suffixed_digits(t, "m"@));
        assert(!suffixed_digits(t, "h"@));
        assert(!suffixed_digits(t, "d"@));
        assert(unsigned_digits(t) == t);
        assert(crate::text::is_digit(t[0]));
        assert(all_digits(t));
        assert(t.drop_last() =~= Seq::<char>::empty());
        assert(dec_val(t) == dec_val(t.drop_last()) * 10 + crate::text::digit_val(t.last()));
        assert(dec_val(t) == 0);
    } else if v as int % (NANOS_PER_DAY as int) == 0 {
        let q = (v / NANOS_PER_DAY) as nat;
        vstd::arithmetic::div_mod::lemma_div_basics_4(v as int, NANOS_PER_DAY as int);
        let t = dec_digits(q) + "d"@;
        lemma_strip_quoted(t);
        assert(t[t.len() - 1] == 'd');
        lemma_not_suffixed_by_char(t, "ns"@, 1);
        lemma_not_suffixed_by_char(t, "us"@, 1);
        lemma_not_suffixed_by_char(t, "ms"@, 1);
        lemma_not_suffixed_by_char(t, "s"@, 1);
        lemma_not_suffixed_by_char(t, "m"@, 1);
        lemma_not_suffixed_by_char(t, "h"@, 1);
        lemma_render_matches(q, "d"@);
        lemma_fundamental_div_mod(v as int, NANOS_PER_DAY as int);
    } else if v as int % (NANOS_PER_HOUR as int) == 0 {
        let q = (v / NANOS_PER_HOUR) as nat;
        vstd::arithmetic::div_mod::lemma_div_basics_4(v as int, NANOS_PER_HOUR as int);
        let t = dec_digits(q) + "h"@;
        lemma_strip_quoted(t);
        assert(t[t.len() - 1] == 'h');
        lemma_not_suffixed_by_char(t, "ns"@, 1);
        lemma_not_suffixed_by_char(t, "us"@, 1);
        lemma_not_suffixed_by_char(t, "ms"@, 1);
        lemma_not_suffixed_by_char(t, "s"@, 1);
        lemma_not_suffixed_by_char(t, "m"@, 1);
        lemma_render_matches(q, "h"@);
        lemma_fundamental_div_mod(v as int, NANOS_PER_HOUR as int);
    } else if v as int % (NANOS_PER_MINUTE as int) == 0 {
        let q = (v / NANOS_PER_MINUTE) as nat;
        vstd::arithmetic::div_mod::lemma_div_basics_4(v as int, NANOS_PER_MINUTE as int);
        let t = dec_digits(q) + "m"@;
        lemma_strip_quoted(t);
        assert(t[t.len() - 1] == 'm');
        lemma_not_suffixed_by_char(t, "ns"@, 1);
        lemma_not_suffixed_by_char(t, "us"@, 1);
        lemma_not_suffixed_by_char(t, "ms"@, 1);
        lemma_not_suffixed_by_char(t, "s"@, 1);
        lemma_render_matches(q, "m"@);
        lemma_fundamental_div_mod(v as int, NANOS_PER_MINUTE as int);
    } else if v as int % (NANOS_PER_SECOND as int) == 0 {
        let q = (v / NANOS_PER_SECOND) as nat;
        vstd::arithmetic::div_mod::lemma_div_basics_4(v as int, NANOS_PER_SECOND as int);
        crate::text::lemma_dec_digits_are_digits(q);
        let t = dec_digits(q) + "s"@;
        lemma_strip_quoted(t);
        assert(t[t.len() - 2] == dec_digits(q).last());
        assert(crate::text::is_digit(t[t.len() - 2]));
        lemma_not_suffixed_by_char(t, "ns"@, 2);
        lemma_not_suffixed_by_char(t, "us"@, 2);
        lemma_not_suffixed_by_char(t, "ms"@, 2);
        lemma_render_matches(q, "s"@);
        lemma_fundamental_div_mod(v as int, NANOS_PER_SECOND as int);
    } else if v as int % (NANOS_PER_MILLI as int) == 0 {
        let q = (v / NANOS_PER_MILLI) as nat;
        vstd::arithmetic::div_mod::lemma_div_basics_4(v as int, NANOS_PER_MILLI as int);
        let t = dec_digits(q) + "ms"@;
        lemma_strip_quoted(t);
        assert(t[t.len() - 2] == 'm');
        lemma_not_suffixed_by_char(t, "ns"@, 2);
        lemma_not_suffixed_by_char(t, "us"@, 2);
        lemma_render_matches(q, "ms"@);
        lemma_fundamental_div_mod(v as int, NANOS_PER_MILLI as int);
    } else if v as int % (NANOS_PER_MICRO as int) == 0 {
        let q = (v / NANOS_PER_MICRO) as nat;
        vstd::arithmetic::div_mod::lemma_div_basics_4(v as int, NANOS_PER_MICRO as int);
        let t = dec_digits(q) + "us"@;
        lemma_strip_quoted(t);
        assert(t[t.len() - 2] == 'u');
        lemma_not_suffixed_by_char(t, "ns"@, 2);
        lemma_render_matches(q, "us"@);
        lemma_fundamental_div_mod(v as int, NANOS_PER_MICRO as int);
    } else {
        let t = dec_digits(v as nat) + "ns"@;
        lemma_strip_quoted(t);
        lemma_render_matches(v as nat, "ns"@);
    }
}

/// Law: a negative duration renders with a leading minus sign, which the
/// parser (it accepts only non-negative numbers) rejects.
pub proof fn lemma_negative_duration_does_not_parse(v: i64)
    requires
        v < 0,
    ensures
        spec_parse_duration(spec_format_duration(v as int)) is None,
{
    reveal_strlit("ns");
    reveal_strlit("us");
    reveal_strlit("ms");
    reveal_strlit("s");
    reveal_strlit("m");
    reveal_strlit("h");
    reveal_strlit("d");
    let x = v as int;
    if x % (NANOS_PER_DAY as int) == 0 {
        lemma_negative_exact_quotient(x, NANOS_PER_DAY as int);
        lemma_minus_front(x / (NANOS_PER_DAY as int), "d"@);
    } else if x % (NANOS_PER_HOUR as int) == 0 {
        lemma_negative_exact_quotient(x, NANOS_PER_HOUR as int);
        lemma_minus_front(x / (NANOS_PER_HOUR as int), "h"@);
    } else if x % (NANOS_PER_MINUTE as int) == 0 {
        lemma_negative_exact_quotient(x, NANOS_PER_MINUTE as int);
        lemma_minus_front(x / (NANOS_PER_MINUTE as int), "m"@);
    } else if x % (NANOS_PER_SECOND as int) == 0 {
        lemma_negative_exact_quotient(x, NANOS_PER_SECOND as int);
        lemma_minus_front(x / (NANOS_PER_SECOND as int), "s"@);
    } else if x % (NANOS_PER_MILLI as int) == 0 {
        lemma_negative_exact_quotient(x, NANOS_PER_MILLI as int);
        lemma_minus_front(x / (NANOS_PER_MILLI as int), "ms"@);
    } else if x % (NANOS_PER_MICRO as int) == 0 {
        lemma_negative_exact_quotient(x, NANOS_PER_MICRO as int);
        lemma_minus_front(x / (NANOS_PER_MICRO as int), "us"@);
    } else {
        lemma_minus_front(x, "ns"@);
    }
}

/// An exact negative multiple has a negative quotient.
proof fn lemma_negative_exact_quotient(v: int, u: int)
    requires
        v < 0,
        u > 0,
        v % u == 0,
    ensures
        v / u < 0,
{
    lemma_fundamental_div_mod(v, u);
    let q = v / u;
    assert(q < 0) by (nonlinear_arith)
        requires
            v == u * q + 0,
            v < 0,
            u > 0,
    ;
}

/// A negative quotient renders with a leading minus sign, and the
/// suffixed text parses as nothing.
proof fn lemma_minus_front(q: int, suffix: Seq<char>)
    requires
        q < 0,
        1 <= suffix.len() <= 2,
    ensures
        spec_parse_duration(quoted(dec_int(q) + suffix)) is None,
{
    crate::text::lemma_dec_digits_are_digits((-q) as nat);
    let t = dec_int(q) + suffix;
    assert(t[0] == '-');
    lemma_minus_body_rejected(t);
}

/// A text starting with a minus sign matches no unit form and is no
/// unsigned number, so it parses as nothing.
proof fn lemma_minus_body_rejected(t: Seq<char>)
    requires
        t.len() >= 2,
        t[0] == '-',
    ensures
        spec_parse_duration(quoted(t)) is None,
{
    reveal_strlit("\"");
    reveal_strlit("ns");
    reveal_strlit("us");
    reveal_strlit("ms");
    reveal_strlit("s");
    reveal_strlit("m");
    reveal_strlit("h");
    reveal_strlit("d");
    lemma_strip_quoted(t);
    assert(!crate::text::is_digit('-'));
    if t.len() > 1 {
        lemma_not_suffixed_by_nondigit(t, "s"@, 0);
        lemma_not_suffixed_by_nondigit(t, "m"@, 0);
        lemma_not_suffixed_by_nondigit(t, "h"@, 0);
        lemma_not_suffixed_by_nondigit(t, "d"@, 0);
    }
    if t.len() > 2 {
        lemma_not_suffixed_by_nondigit(t, "ns"@, 0);
        lemma_not_suffixed_by_nondigit(t, "us"@, 0);
        lemma_not_suffixed_by_nondigit(t, "ms"@, 0);
    }
    assert(unsigned_digits(t) == t);
    assert(!all_digits(t));
}

/// The fuzzer options table; every field is optional until a default or
/// an explicit value is set.
#[derive(Debug)]
pub struct Options {
    pub runs: Option<u32>,
    pub max_total_time: Option<i64>,
    pub seed: Option<u32>,
    pub max_input_size: Option<u64>,
    pub mutation_depth: Option<u16>,
    pub dictionary_level: Option<u16>,
    pub detect_exits: Option<bool>,
    pub detect_leaks: Option<bool>,
    pub run_limit: Option<i64>,
    pub malloc_limit: Option<u64>,
    pub oom_limit: Option<u64>,
    pub purge_interval: Option<i64>,
    pub malloc_exitcode: Option<i32>,
    pub death_exitcode: Option<i32>,
    pub leak_exitcode: Option<i32>,
    pub oom_exitcode: Option<i32>,
    pub pulse_interval: Option<i64>,
    pub debug: Option<bool>,
}

impl Options {
    /// The empty table: no field set.
    pub fn empty() -> (o: Options)
        ensures
            o.runs is None,
            o.max_total_time is None,
            o.seed is None,
            o.max_input_size is None,
            o.mutation_depth is None,
            o.dictionary_level is None,
            o.detect_exits is None,
            o.detect_leaks is None,
            o.run_limit is None,
            o.malloc_limit is None,
            o.oom_limit is None,
            o.purge_interval is None,
            o.malloc_exitcode is None,
            o.death_exitcode is None,
            o.leak_exitcode is None,
            o.oom_exitcode is None,
            o.pulse_interval is None,
            o.debug is None,
    {
        Options {
            runs: None,
            max_total_time: None,
            seed: None,
            max_input_size: None,
            mutation_depth: None,
            dictionary_level: None,
            detect_exits: None,
            detect_leaks: None,
            run_limit: None,
            malloc_limit: None,
            oom_limit: None,
            purge_interval: None,
            malloc_exitcode: None,
            death_exitcode: None,
            leak_exitcode: None,
            oom_exitcode: None,
            pulse_interval: None,
            debug: None,
        }
    }

    /// Every field carries a value.
    pub open spec fn all_set(self) -> bool {
        &&& self.runs is Some
        &&& self.max_total_time is Some
        &&& self.seed is Some
        &&& self.max_input_size is Some
        &&& self.mutation_depth is Some
        &&& self.dictionary_level is Some
        &&& self.detect_exits is Some
        &&& self.detect_leaks is Some
        &&& self.run_limit is Some
        &&& self.malloc_limit is Some
        &&& self.oom_limit is Some
        &&& self.purge_interval is Some
        &&& self.malloc_exitcode is Some
        &&& self.death_exitcode is Some
        &&& self.leak_exitcode is Some
        &&& self.oom_exitcode is Some
        &&& self.pulse_interval is Some
        &&& self.debug is Some
    }
}

/// Fill every unset field of `options` with its default value; set fields
/// keep what they hold.
#[verifier::rlimit(60)]
pub fn add_defaults(options: &mut Options)
    ensures
        final(options).runs == (if old(options).runs is Some {
            old(options).runs
        } else {
            Some(0u32)
        }),
        final(options).max_total_time == (if old(options).max_total_time is Some {
            old(options).max_total_time
        } else {
            Some(0i64)
        }),
        final(options).seed == (if old(options).seed is Some {
            old(options).seed
        } else {
            Some(0u32)
        }),
        final(options).max_input_size == (if old(options).max_input_size is Some {
            old(options).max_input_size
        } else {
            Some(BYTES_PER_MB)
        }),
        final(options).mutation_depth == (if old(options).mutation_depth is Some {
            old(options).mutation_depth
        } else {
            Some(5u16)
        }),
        final(options).dictionary_level == (if old(options).dictionary_level is Some {
            old(options).dictionary_level
        } else {
            Some(0u16)
        }),
        final(options).detect_exits == (if old(options).detect_exits is Some {
            old(options).detect_exits
        } else {
            Some(false)
        }),
        final(options).detect_leaks == (if old(options).detect_leaks is Some {
            old(options).detect_leaks
        } else {
            Some(false)
        }),
        final(options).run_limit == (if old(options).run_limit is Some {
            old(options).run_limit
        } else {
            Some((20 * NANOS_PER_MINUTE) as i64)
        }),
        final(options).malloc_limit == (if old(options).malloc_limit is Some {
            old(options).malloc_limit
        } else {
            Some((2 * BYTES_PER_GB) as u64)
        }),
        final(options).oom_limit == (if old(options).oom_limit is Some {
            old(options).oom_limit
        } else {
            Some((2 * BYTES_PER_GB) as u64)
        }),
        final(options).purge_interval == (if old(options).purge_interval is Some {
            old(options).purge_interval
        } else {
            Some(NANOS_PER_SECOND)
        }),
        final(options).malloc_exitcode == (if old(options).malloc_exitcode is Some {
            old(options).malloc_exitcode
        } else {
            Some(2000i32)
        }),
        final(options).death_exitcode == (if old(options).death_exitcode is Some {
            old(options).death_exitcode
        } else {
            Some(2001i32)
        }),
        final(options).leak_exitcode == (if old(options).leak_exitcode is Some {
            old(options).leak_exitcode
        } else {
            Some(2002i32)
        }),
        final(options).oom_exitcode == (if old(options).oom_exitcode is Some {
            old(options).oom_exitcode
        } else {
            Some(2003i32)
        }),
        final(options).pulse_interval == (if old(options).pulse_interval is Some {
            old(options).pulse_interval
        } else {
            Some((20 * NANOS_PER_SECOND) as i64)
        }),
        final(options).debug == (if old(options).debug is Some {
            old(options).debug
        } else {
            Some(false)
        }),
        final(options).all_set(),
{
    let o = Options {
        runs: if options.runs.is_none() {
            Some(0)
        } else {
            options.runs
        },
        max_total_time: if options.max_total_time.is_none() {
            Some(0)
        } else {
            options.max_total_time
        },
        seed: if options.seed.is_none() {
            Some(0)
        } else {
            options.seed
        },
        max_input_size: if options.max_input_size.is_none() {
            Some(BYTES_PER_MB)
        } else {
            options.max_input_size
        },
        mutation_depth: if options.mutation_depth.is_none() {
            Some(5)
        } else {
            options.mutation_depth
        },
        dictionary_level: if options.dictionary_level.is_none() {
            Some(0)
        } else {
            options.dictionary_level
        },
        detect_exits: if options.detect_exits.is_none() {
            Some(false)
        } else {
            options.detect_exits
        },
        detect_leaks: if options.detect_leaks.is_none() {
            Some(false)
        } else {
            options.detect_leaks
        },
        run_limit: if options.run_limit.is_none() {
            Some(20 * NANOS_PER_MINUTE)
        } else {
            options.run_limit
        },
        malloc_limit: if options.malloc_limit.is_none() {
            Some(2 * BYTES_PER_GB)
        } else {
            options.malloc_limit
        },
        oom_limit: if options.oom_limit.is_none() {
            Some(2 * BYTES_PER_GB)
        } else {
            options.oom_limit
        },
        purge_interval: if options.purge_interval.is_none() {
            Some(NANOS_PER_SECOND)
        } else {
            options.purge_interval
        },
        malloc_exitcode: if options.malloc_exitcode.is_none() {
            Some(2000)
        } else {
            options.malloc_exitcode
        },
        death_exitcode: if options.death_exitcode.is_none() {
            Some(2001)
        } else {
            options.death_exitcode
        },
        leak_exitcode: if options.leak_exitcode.is_none() {
            Some(2002)
        } else {
            options.leak_exitcode
        },
        oom_exitcode: if options.oom_exitcode.is_none() {
            Some(2003)
        } else {
            options.oom_exitcode
        },
        pulse_interval: if options.pulse_interval.is_none() {
            Some(20 * NANOS_PER_SECOND)
        } else {
            options.pulse_interval
        },
        debug: if options.debug.is_none() {
            Some(false)
        } else {
            options.debug
        },
    };
    *options = o;
}

/// Rendering of one named option, if the name is known.
pub open spec fn spec_get(o: Options, name: Seq<char>) -> Option<Seq<char>> {
    if name == "runs"@ {
        Some(dec_digits(o.runs->0 as nat))
    } else if name == "max_total_time"@ {
        Some(spec_format_duration(o.max_total_time->0 as int))
    } else if name == "seed"@ {
        Some(dec_digits(o.seed->0 as nat))
    } else if name == "max_input_size"@ {
        Some(spec_format_size(o.max_input_size->0 as int))
    } else if name == "mutation_depth"@ {
        Some(dec_digits(o.mutation_depth->0 as nat))
    } else if name == "dictionary_level"@ {
        Some(dec_digits(o.dictionary_level->0 as nat))
    } else if name == "detect_exits"@ {
        Some(spec_bool_text(o.detect_exits->0))
    } else if name == "detect_leaks"@ {
        Some(spec_bool_text(o.detect_leaks->0))
    } else if name == "run_limit"@ {
        Some(spec_format_duration(o.run_limit->0 as int))
    } else if name == "malloc_limit"@ {
        Some(spec_format_size(o.malloc_limit->0 as int))
    } else if name == "oom_limit"@ {
        Some(spec_format_size(o.oom_limit->0 as int))
    } else if name == "purge_interval"@ {
        Some(spec_format_duration(o.purge_interval->0 as int))
    } else if name == "malloc_exitcode"@ {
        Some(dec_int(o.malloc_exitcode->0 as int))
    } else if name == "death_exitcode"@ {
        Some(dec_int(o.death_exitcode->0 as int))
    } else if name == "leak_exitcode"@ {
        Some(dec_int(o.leak_exitcode->0 as int))
    } else if name == "oom_exitcode"@ {
        Some(dec_int(o.oom_exitcode->0 as int))
    } else if name == "pulse_interval"@ {
        Some(spec_format_duration(o.pulse_interval->0 as int))
    } else if name == "debug"@ {
        Some(spec_bool_text(o.debug->0))
    } else {
        None
    }
}

/// A boolean, rendered.
pub open spec fn spec_bool_text(b: bool) -> Seq<char> {
    if b {
        "true"@
    } else {
        "false"@
    }
}

/// The field that `name` designates carries a value (vacuous for unknown
/// names).
pub open spec fn get_defined(o: Options, name: Seq<char>) -> bool {
    &&& name == "runs"@ ==> o.runs is Some
    &&& name == "max_total_time"@ ==> o.max_total_time is Some
    &&& name == "seed"@ ==> o.seed is Some
    &&& name == "max_input_size"@ ==> o.max_input_size is Some
    &&& name == "mutation_depth"@ ==> o.mutation_depth is Some
    &&& name == "dictionary_level"@ ==> o.dictionary_level is Some
    &&& name == "detect_exits"@ ==> o.detect_exits is Some
    &&& name == "detect_leaks"@ ==> o.detect_leaks is Some
    &&& name == "run_limit"@ ==> o.run_limit is Some
    &&& name == "malloc_limit"@ ==> o.malloc_limit is Some
    &&& name == "oom_limit"@ ==> o.oom_limit is Some
    &&& name == "purge_interval"@ ==> o.purge_interval is Some
    &&& name == "malloc_exitcode"@ ==> o.malloc_exitcode is Some
    &&& name == "death_exitcode"@ ==> o.death_exitcode is Some
    &&& name == "leak_exitcode"@ ==> o.leak_exitcode is Some
    &&& name == "oom_exitcode"@ ==> o.oom_exitcode is Some
    &&& name == "pulse_interval"@ ==> o.pulse_interval is Some
    &&& name == "debug"@ ==> o.debug is Some
}

/// Render a boolean.
fn bool_text(b: bool) -> (r: String)
    ensures
        r@ == spec_bool_text(b),
{
    if b {
        String::from_str("true")
    } else {
        String::from_str("false")
    }
}

/// Return the named option of `options`, rendered; the field designated
/// by a known name must carry a value, as after `add_defaults`.
pub fn get(options: &Options, name: &str) -> (r: Result<String, OptionsError>)
    requires
        get_defined(*options, name@),
    ensures
        match spec_get(*options, name@) {
            Some(t) => r matches Ok(s) && s@ == t,
            None => r == Err::<String, OptionsError>(OptionsError::UnknownOption),
        },
{
    if str_eq(name, "runs") {
        Ok(u64_dec(options.runs.unwrap() as u64))
    } else if str_eq(name, "max_total_time") {
        Ok(format_duration(options.max_total_time))
    } else if str_eq(name, "seed") {
        Ok(u64_dec(options.seed.unwrap() as u64))
    } else if str_eq(name, "max_input_size") {
        Ok(format_size(options.max_input_size))
    } else if str_eq(name, "mutation_depth") {
        Ok(u64_dec(options.mutation_depth.unwrap() as u64))
    } else if str_eq(name, "dictionary_level") {
        Ok(u64_dec(options.dictionary_level.unwrap() as u64))
    } else if str_eq(name, "detect_exits") {
        Ok(bool_text(options.detect_exits.unwrap()))
    } else if str_eq(name, "detect_leaks") {
        Ok(bool_text(options.detect_leaks.unwrap()))
    } else if str_eq(name, "run_limit") {
        Ok(format_duration(options.run_limit))
    } else if str_eq(name, "malloc_limit") {
        Ok(format_size(options.malloc_limit))
    } else if str_eq(name, "oom_limit") {
        Ok(format_size(options.oom_limit))
    } else if str_eq(name, "purge_interval") {
        Ok(format_duration(options.purge_interval))
    } else if str_eq(name, "malloc_exitcode") {
        Ok(crate::text::i64_dec(options.malloc_exitcode.unwrap() as i64))
    } else if str_eq(name, "death_exitcode") {
        Ok(crate::text::i64_dec(options.death_exitcode.unwrap() as i64))
    } else if str_eq(name, "leak_exitcode") {
        Ok(crate::text::i64_dec(options.leak_exitcode.unwrap() as i64))
    } else if str_eq(name, "oom_exitcode") {
        Ok(crate::text::i64_dec(options.oom_exitcode.unwrap() as i64))
    } else if str_eq(name, "pulse_interval") {
        Ok(format_duration(options.pulse_interval))
    } else if str_eq(name, "debug") {
        Ok(bool_text(options.debug.unwrap()))
    } else {
        Err(OptionsError::UnknownOption)
    }
}


/// A `u32` value text.
pub open spec fn spec_parse_u32(s: Seq<char>) -> Option<int> {
    if is_unsigned_text(s) && dec_val(unsigned_digits(s)) <= u32::MAX {
        Some(dec_val(unsigned_digits(s)))
    } else {
        None
    }
}

/// A `u16` value text.
pub open spec fn spec_parse_u16(s: Seq<char>) -> Option<int> {
    if is_unsigned_text(s) && dec_val(unsigned_digits(s)) <= u16::MAX {
        Some(dec_val(unsigned_digits(s)))
    } else {
        None
    }
}

/// A `u64` value text.
pub open spec fn spec_parse_u64(s: Seq<char>) -> Option<int> {
    if is_unsigned_text(s) && dec_val(unsigned_digits(s)) <= u64::MAX {
        Some(dec_val(unsigned_digits(s)))
    } else {
        None
    }
}

/// An `i32` value text.
pub open spec fn spec_parse_i32(s: Seq<char>) -> Option<int> {
    if is_signed_text(s) && i32::MIN <= signed_val(s) <= i32::MAX {
        Some(signed_val(s))
    } else {
        None
    }
}

/// A boolean value text: exactly `true` or `false`.
pub open spec fn spec_parse_bool(s: Seq<char>) -> Option<bool> {
    if s == "true"@ {
        Some(true)
    } else if s == "false"@ {
        Some(false)
    } else {
        None
    }
}

/// Parsing and assignment of one named option, as a function on tables.
pub open spec fn spec_set(o: Options, name: Seq<char>, value: Seq<char>) -> Result<
    Options,
    OptionsError,
> {
    if name == "runs"@ {
        match spec_parse_u32(value) {
            Some(v) => Ok(Options { runs: Some(v as u32), ..o }),
            None => Err(OptionsError::InvalidValue),
        }
    } else if name == "max_total_time"@ {
        match spec_parse_duration(value) {
            Some(v) => Ok(Options { max_total_time: Some(v as i64), ..o }),
            None => Err(OptionsError::InvalidValue),
        }
    } else if name == "seed"@ {
        match spec_parse_u32(value) {
            Some(v) => Ok(Options { seed: Some(v as u32), ..o }),
            None => Err(OptionsError::InvalidValue),
        }
    } else if name == "max_input_size"@ {
        match spec_parse_size(value) {
            Some(v) => Ok(Options { max_input_size: Some(v as u64), ..o }),
            None => Err(OptionsError::InvalidValue),
        }
    } else if name == "mutation_depth"@ {
        match spec_parse_u16(value) {
            Some(v) => Ok(Options { mutation_depth: Some(v as u16), ..o }),
            None => Err(OptionsError::InvalidValue),
        }
    } else if name == "dictionary_level"@ {
        match spec_parse_u16(value) {
            Some(v) => Ok(Options { dictionary_level: Some(v as u16), ..o }),
            None => Err(OptionsError::InvalidValue),
        }
    } else if name == "detect_exits"@ {
        match spec_parse_bool(value) {
            Some(v) => Ok(Options { detect_exits: Some(v), ..o }),
            None => Err(OptionsError::InvalidValue),
        }
    } else if name == "detect_leaks"@ {
        match spec_parse_bool(value) {
            Some(v) => Ok(Options { detect_leaks: Some(v), ..o }),
            None => Err(OptionsError::InvalidValue),
        }
    } else if name == "run_limit"@ {
        match spec_parse_duration(value) {
            Some(v) => Ok(Options { run_limit: Some(v as i64), ..o }),
            None => Err(OptionsError::InvalidValue),
        }
    } else if name == "malloc_limit"@ {
        match spec_parse_size(value) {
            Some(v) => Ok(Options { malloc_limit: Some(v as u64), ..o }),
            None => Err(OptionsError::InvalidValue),
        }
    } else if name == "oom_limit"@ {
        match spec_parse_size(value) {
            Some(v) => Ok(Options { oom_limit: Some(v as u64), ..o }),
            None => Err(OptionsError::InvalidValue),
        }
    } else if name == "purge_interval"@ {
        match spec_parse_duration(value) {
            Some(v) => Ok(Options { purge_interval: Some(v as i64), ..o }),
            None => Err(OptionsError::InvalidValue),
        }
    } else if name == "malloc_exitcode"@ {
        match spec_parse_i32(value) {
            Some(v) => Ok(Options { malloc_exitcode: Some(v as i32), ..o }),
            None => Err(OptionsError::InvalidValue),
        }
    } else if name == "death_exitcode"@ {
        match spec_parse_i32(value) {
            Some(v) => Ok(Options { death_exitcode: Some(v as i32), ..o }),
            None => Err(OptionsError::InvalidValue),
        }
    } else if name == "leak_exitcode"@ {
        match spec_parse_i32(value) {
            Some(v) => Ok(Options { leak_exitcode: Some(v as i32), ..o }),
            None => Err(OptionsError::InvalidValue),
        }
    } else if name == "oom_exitcode"@ {
        match spec_parse_i32(value) {
            Some(v) => Ok(Options { oom_exitcode: Some(v as i32), ..o }),
            None => Err(OptionsError::InvalidValue),
        }
    } else if name == "pulse_interval"@ {
        match spec_parse_duration(value) {
            Some(v) => Ok(Options { pulse_interval: Some(v as i64), ..o }),
            None => Err(OptionsError::InvalidValue),
        }
    } else if name == "debug"@ {
        match spec_parse_bool(value) {
            Some(v) => Ok(Options { debug: Some(v), ..o }),
            None => Err(OptionsError::InvalidValue),
        }
    } else {
        Err(OptionsError::UnknownOption)
    }
}

/// Parse a `u32` value text.
fn parse_u32_value(value: &str) -> (r: Result<u32, OptionsError>)
    ensures
        match spec_parse_u32(value@) {
            Some(v) => r matches Ok(x) && x as int == v,
            None => r == Err::<u32, OptionsError>(OptionsError::InvalidValue),
        },
{
    let cs = chars_of(value);
    match parse_u64_chars(&cs) {
        Some(v) => {
            if v <= 0xffff_ffffu64 {
                Ok(v as u32)
            } else {
                Err(OptionsError::InvalidValue)
            }
        },
        None => Err(OptionsError::InvalidValue),
    }
}

/// Parse a `u16` value text.
fn parse_u16_value(value: &str) -> (r: Result<u16, OptionsError>)
    ensures
        match spec_parse_u16(value@) {
            Some(v) => r matches Ok(x) && x as int == v,
            None => r == Err::<u16, OptionsError>(OptionsError::InvalidValue),
        },
{
    let cs = chars_of(value);
    match parse_u64_chars(&cs) {
        Some(v) => {
            if v <= 0xffffu64 {
                Ok(v as u16)
            } else {
                Err(OptionsError::InvalidValue)
            }
        },
        None => Err(OptionsError::InvalidValue),
    }
}

/// Parse an `i32` value text.
fn parse_i32_value(value: &str) -> (r: Result<i32, OptionsError>)
    ensures
        match spec_parse_i32(value@) {
            Some(v) => r matches Ok(x) && x as int == v,
            None => r == Err::<i32, OptionsError>(OptionsError::InvalidValue),
        },
{
    let cs = chars_of(value);
    match parse_i64_chars(&cs) {
        Some(v) => {
            if -2147483648i64 <= v && v <= 2147483647i64 {
                Ok(v as i32)
            } else {
                Err(OptionsError::InvalidValue)
            }
        },
        None => Err(OptionsError::InvalidValue),
    }
}

/// Parse a boolean value text.
fn parse_bool_value(value: &str) -> (r: Result<bool, OptionsError>)
    ensures
        match spec_parse_bool(value@) {
            Some(v) => r == Ok::<bool, OptionsError>(v),
            None => r == Err::<bool, OptionsError>(OptionsError::InvalidValue),
        },
{
    if str_eq(value, "true") {
        Ok(true)
    } else if str_eq(value, "false") {
        Ok(false)
    } else {
        Err(OptionsError::InvalidValue)
    }
}

fn set_runs(options: &mut Options, value: &str) -> (r: Result<(), OptionsError>)
    ensures
        match spec_parse_u32(value@) {
            Some(v) => r is Ok && *final(options) == (Options {
                runs: Some(v as u32),
                ..*old(options)
            }),
            None => r == Err::<(), OptionsError>(OptionsError::InvalidValue) && *final(options)
                == *old(options),
        },
{
    match parse_u32_value(value) {
        Ok(v) => {
            options.runs = Some(v);
            Ok(())
        },
        Err(e) => Err(e),
    }
}

fn set_max_total_time(options: &mut Options, value: &str) -> (r: Result<(), OptionsError>)
    ensures
        match spec_parse_duration(value@) {
            Some(v) => r is Ok && *final(options) == (Options {
                max_total_time: Some(v as i64),
                ..*old(options)
            }),
            None => r == Err::<(), OptionsError>(OptionsError::InvalidValue) && *final(options)
                == *old(options),
        },
{
    match parse_duration(value) {
        Ok(v) => {
            options.max_total_time = Some(v);
            Ok(())
        },
        Err(e) => Err(e),
    }
}

fn set_seed(options: &mut Options, value: &str) -> (r: Result<(), OptionsError>)
    ensures
        match spec_parse_u32(value@) {
            Some(v) => r is Ok && *final(options) == (Options {
                seed: Some(v as u32),
                ..*old(options)
            }),
            None => r == Err::<(), OptionsError>(OptionsError::InvalidValue) && *final(options)
                == *old(options),
        },
{
    match parse_u32_value(value) {
        Ok(v) => {
            options.seed = Some(v);
            Ok(())
        },
        Err(e) => Err(e),
    }
}

fn set_max_input_size(options: &mut Options, value: &str) -> (r: Result<(), OptionsError>)
    ensures
        match spec_parse_size(value@) {
            Some(v) => r is Ok && *final(options) == (Options {
                max_input_size: Some(v as u64),
                ..*old(options)
            }),
            None => r == Err::<(), OptionsError>(OptionsError::InvalidValue) && *final(options)
                == *old(options),
        },
{
    match parse_size(value) {
        Ok(v) => {
            options.max_input_size = Some(v);
            Ok(())
        },
        Err(e) => Err(e),
    }
}

fn set_mutation_depth(options: &mut Options, value: &str) -> (r: Result<(), OptionsError>)
    ensures
        match spec_parse_u16(value@) {
            Some(v) => r is Ok && *final(options) == (Options {
                mutation_depth: Some(v as u16),
                ..*old(options)
            }),
            None => r == Err::<(), OptionsError>(OptionsError::InvalidValue) && *final(options)
                == *old(options),
        },
{
    match parse_u16_value(value) {
        Ok(v) => {
            options.mutation_depth = Some(v);
            Ok(())
        },
        Err(e) => Err(e),
    }
}

fn set_dictionary_level(options: &mut Options, value: &str) -> (r: Result<(), OptionsError>)
    ensures
        match spec_parse_u16(value@) {
            Some(v) => r is Ok && *final(options) == (Options {
                dictionary_level: Some(v as u16),
                ..*old(options)
            }),
            None => r == Err::<(), OptionsError>(OptionsError::InvalidValue) && *final(options)
                == *old(options),
        },
{
    match parse_u16_value(value) {
        Ok(v) => {
            options.dictionary_level = Some(v);
            Ok(())
        },
        Err(e) => Err(e),
    }
}

fn set_detect_exits(options: &mut Options, value: &str) -> (r: Result<(), OptionsError>)
    ensures
        match spec_parse_bool(value@) {
            Some(v) => r is Ok && *final(options) == (Options {
                detect_exits: Some(v),
                ..*old(options)
            }),
            None => r == Err::<(), OptionsError>(OptionsError::InvalidValue) && *final(options)
                == *old(options),
        },
{
    match parse_bool_value(value) {
        Ok(v) => {
            options.detect_exits = Some(v);
            Ok(())
        },
        Err(e) => Err(e),
    }
}

fn set_detect_leaks(options: &mut Options, value: &str) -> (r: Result<(), OptionsError>)
    ensures
        match spec_parse_bool(value@) {
            Some(v) => r is Ok && *final(options) == (Options {
                detect_leaks: Some(v),
                ..*old(options)
            }),
            None => r == Err::<(), OptionsError>(OptionsError::InvalidValue) && *final(options)
                == *old(options),
        },
{
    match parse_bool_value(value) {
        Ok(v) => {
            options.detect_leaks = Some(v);
            Ok(())
        },
        Err(e) => Err(e),
    }
}

fn set_run_limit(options: &mut Options, value: &str) -> (r: Result<(), OptionsError>)
    ensures
        match spec_parse_duration(value@) {
            Some(v) => r is Ok && *final(options) == (Options {
                run_limit: Some(v as i64),
                ..*old(options)
            }),
            None => r == Err::<(), OptionsError>(OptionsError::InvalidValue) && *final(options)
                == *old(options),
        },
{
    match parse_duration(value) {
        Ok(v) => {
            options.run_limit = Some(v);
            Ok(())
        },
        Err(e) => Err(e),
    }
}

fn set_malloc_limit(options: &mut Options, value: &str) -> (r: Result<(), OptionsError>)
    ensures
        match spec_parse_size(value@) {
            Some(v) => r is Ok && *final(options) == (Options {
                malloc_limit: Some(v as u64),
                ..*old(options)
            }),
            None => r == Err::<(), OptionsError>(OptionsError::InvalidValue) && *final(options)
                == *old(options),
        },
{
    match parse_size(value) {
        Ok(v) => {
            options.malloc_limit = Some(v);
            Ok(())
        },
        Err(e) => Err(e),
    }
}

fn set_oom_limit(options: &mut Options, value: &str) -> (r: Result<(), OptionsError>)
    ensures
        match spec_parse_size(value@) {
            Some(v) => r is Ok && *final(options) == (Options {
                oom_limit: Some(v as u64),
                ..*old(options)
            }),
            None => r == Err::<(), OptionsError>(OptionsError::InvalidValue) && *final(options)
                == *old(options),
        },
{
    match parse_size(value) {
        Ok(v) => {
            options.oom_limit = Some(v);
            Ok(())
        },
        Err(e) => Err(e),
    }
}

fn set_purge_interval(options: &mut Options, value: &str) -> (r: Result<(), OptionsError>)
    ensures
        match spec_parse_duration(value@) {
            Some(v) => r is Ok && *final(options) == (Options {
                purge_interval: Some(v as i64),
                ..*old(options)
            }),
            None => r == Err::<(), OptionsError>(OptionsError::InvalidValue) && *final(options)
                == *old(options),
        },
{
    match parse_duration(value) {
        Ok(v) => {
            options.purge_interval = Some(v);
            Ok(())
        },
        Err(e) => Err(e),
    }
}

fn set_malloc_exitcode(options: &mut Options, value: &str) -> (r: Result<(), OptionsError>)
    ensures
        match spec_parse_i32(value@) {
            Some(v) => r is Ok && *final(options) == (Options {
                malloc_exitcode: Some(v as i32),
                ..*old(options)
            }),
            None => r == Err::<(), OptionsError>(OptionsError::InvalidValue) && *final(options)
                == *old(options),
        },
{
    match parse_i32_value(value) {
        Ok(v) => {
            options.malloc_exitcode = Some(v);
            Ok(())
        },
        Err(e) => Err(e),
    }
}

fn set_death_exitcode(options: &mut Options, value: &str) -> (r: Result<(), OptionsError>)
    ensures
        match spec_parse_i32(value@) {
            Some(v) => r is Ok && *final(options) == (Options {
                death_exitcode: Some(v as i32),
                ..*old(options)
            }),
            None => r == Err::<(), OptionsError>(OptionsError::InvalidValue) && *final(options)
                == *old(options),
        },
{
    match parse_i32_value(value) {
        Ok(v) => {
            options.death_exitcode = Some(v);
            Ok(())
        },
        Err(e) => Err(e),
    }
}

fn set_leak_exitcode(options: &mut Options, value: &str) -> (r: Result<(), OptionsError>)
    ensures
        match spec_parse_i32(value@) {
            Some(v) => r is Ok && *final(options) == (Options {
                leak_exitcode: Some(v as i32),
                ..*old(options)
            }),
            None => r == Err::<(), OptionsError>(OptionsError::InvalidValue) && *final(options)
                == *old(options),
        },
{
    match parse_i32_value(value) {
        Ok(v) => {
            options.leak_exitcode = Some(v);
            Ok(())
        },
        Err(e) => Err(e),
    }
}

fn set_oom_exitcode(options: &mut Options, value: &str) -> (r: Result<(), OptionsError>)
    ensures
        match spec_parse_i32(value@) {
            Some(v) => r is Ok && *final(options) == (Options {
                oom_exitcode: Some(v as i32),
                ..*old(options)
            }),
            None => r == Err::<(), OptionsError>(OptionsError::InvalidValue) && *final(options)
                == *old(options),
        },
{
    match parse_i32_value(value) {
        Ok(v) => {
            options.oom_exitcode = Some(v);
            Ok(())
        },
        Err(e) => Err(e),
    }
}

fn set_pulse_interval(options: &mut Options, value: &str) -> (r: Result<(), OptionsError>)
    ensures
        match spec_parse_duration(value@) {
            Some(v) => r is Ok && *final(options) == (Options {
                pulse_interval: Some(v as i64),
                ..*old(options)
            }),
            None => r == Err::<(), OptionsError>(OptionsError::InvalidValue) && *final(options)
                == *old(options),
        },
{
    match parse_duration(value) {
        Ok(v) => {
            options.pulse_interval = Some(v);
            Ok(())
        },
        Err(e) => Err(e),
    }
}

fn set_debug(options: &mut Options, value: &str) -> (r: Result<(), OptionsError>)
    ensures
        match spec_parse_bool(value@) {
            Some(v) => r is Ok && *final(options) == (Options {
                debug: Some(v),
                ..*old(options)
            }),
            None => r == Err::<(), OptionsError>(OptionsError::InvalidValue) && *final(options)
                == *old(options),
        },
{
    match parse_bool_value(value) {
        Ok(v) => {
            options.debug = Some(v);
            Ok(())
        },
        Err(e) => Err(e),
    }
}

/// Parse `value` and set the named field of `options`; an unparsable
/// value or unknown name leaves the table unchanged and says which it
/// was.
#[verifier::rlimit(100)]
pub fn set(options: &mut Options, name: &str, value: &str) -> (r: Result<(), OptionsError>)
    ensures
        match spec_set(*old(options), name@, value@) {
            Ok(o2) => r is Ok && *final(options) == o2,
            Err(e) => r == Err::<(), OptionsError>(e) && *final(options) == *old(options),
        },
{
    if str_eq(name, "runs") {
        set_runs(options, value)
    } else if str_eq(name, "max_total_time") {
        set_max_total_time(options, value)
    } else if str_eq(name, "seed") {
        set_seed(options, value)
    } else if str_eq(name, "max_input_size") {
        set_max_input_size(options, value)
    } else if str_eq(name, "mutation_depth") {
        set_mutation_depth(options, value)
    } else if str_eq(name, "dictionary_level") {
        set_dictionary_level(options, value)
    } else if str_eq(name, "detect_exits") {
        set_detect_exits(options, value)
    } else if str_eq(name, "detect_leaks") {
        set_detect_leaks(options, value)
    } else if str_eq(name, "run_limit") {
        set_run_limit(options, value)
    } else if str_eq(name, "malloc_limit") {
        set_malloc_limit(options, value)
    } else if str_eq(name, "oom_limit") {
        set_oom_limit(options, value)
    } else if str_eq(name, "purge_interval") {
        set_purge_interval(options, value)
    } else if str_eq(name, "malloc_exitcode") {
        set_malloc_exitcode(options, value)
    } else if str_eq(name, "death_exitcode") {
        set_death_exitcode(options, value)
    } else if str_eq(name, "leak_exitcode") {
        set_leak_exitcode(options, value)
    } else if str_eq(name, "oom_exitcode") {
        set_oom_exitcode(options, value)
    } else if str_eq(name, "pulse_interval") {
        set_pulse_interval(options, value)
    } else if str_eq(name, "debug") {
        set_debug(options, value)
    } else {
        Err(OptionsError::UnknownOption)
    }
}

/// One rendered pair of `get_all`.
fn get_known(options: &Options, name: &str) -> (r: (String, String))
    requires
        get_defined(*options, name@),
        spec_get(*options, name@) is Some,
    ensures
        r.0@ == name@,
        r.1@ == spec_get(*options, name@)->0,
{
    let rendered = match get(options, name) {
        Ok(s) => s,
        Err(_) => {
            proof {
                assert(false);
            }
            String::new()
        },
    };
    (String::from_str(name), rendered)
}

/// Name/value pairs for all options, in their canonical order; every
/// field must carry a value, as after `add_defaults`.
pub fn get_all(options: &Options) -> (r: Vec<(String, String)>)
    requires
        options.all_set(),
    ensures
        r@.len() == 18,
        r@[0].0@ == "runs"@ && r@[0].1@ == spec_get(*options, "runs"@)->0,
        r@[1].0@ == "max_total_time"@ && r@[1].1@ == spec_get(*options, "max_total_time"@)->0,
        r@[2].0@ == "seed"@ && r@[2].1@ == spec_get(*options, "seed"@)->0,
        r@[3].0@ == "max_input_size"@ && r@[3].1@ == spec_get(*options, "max_input_size"@)->0,
        r@[4].0@ == "mutation_depth"@ && r@[4].1@ == spec_get(*options, "mutation_depth"@)->0,
        r@[5].0@ == "dictionary_level"@ && r@[5].1@ == spec_get(
            *options,
            "dictionary_level"@,
        )->0,
        r@[6].0@ == "detect_exits"@ && r@[6].1@ == spec_get(*options, "detect_exits"@)->0,
        r@[7].0@ == "detect_leaks"@ && r@[7].1@ == spec_get(*options, "detect_leaks"@)->0,
        r@[8].0@ == "run_limit"@ && r@[8].1@ == spec_get(*options, "run_limit"@)->0,
        r@[9].0@ == "malloc_limit"@ && r@[9].1@ == spec_get(*options, "malloc_limit"@)->0,
        r@[10].0@ == "oom_limit"@ && r@[10].1@ == spec_get(*options, "oom_limit"@)->0,
        r@[11].0@ == "purge_interval"@ && r@[11].1@ == spec_get(*options, "purge_interval"@)->0,
        r@[12].0@ == "malloc_exitcode"@ && r@[12].1@ == spec_get(
            *options,
            "malloc_exitcode"@,
        )->0,
        r@[13].0@ == "death_exitcode"@ && r@[13].1@ == spec_get(*options, "death_exitcode"@)->0,
        r@[14].0@ == "leak_exitcode"@ && r@[14].1@ == spec_get(*options, "leak_exitcode"@)->0,
        r@[15].0@ == "oom_exitcode"@ && r@[15].1@ == spec_get(*options, "oom_exitcode"@)->0,
        r@[16].0@ == "pulse_interval"@ && r@[16].1@ == spec_get(*options, "pulse_interval"@)->0,
        r@[17].0@ == "debug"@ && r@[17].1@ == spec_get(*options, "debug"@)->0,
{
    let mut r: Vec<(String, String)> = Vec::new();
    r.push(get_known(options, "runs"));
    r.push(get_known(options, "max_total_time"));
    r.push(get_known(options, "seed"));
    r.push(get_known(options, "max_input_size"));
    r.push(get_known(options, "mutation_depth"));
    r.push(get_known(options, "dictionary_level"));
    r.push(get_known(options, "detect_exits"));
    r.push(get_known(options, "detect_leaks"));
    r.push(get_known(options, "run_limit"));
    r.push(get_known(options, "malloc_limit"));
    r.push(get_known(options, "oom_limit"));
    r.push(get_known(options, "purge_interval"));
    r.push(get_known(options, "malloc_exitcode"));
    r.push(get_known(options, "death_exitcode"));
    r.push(get_known(options, "leak_exitcode"));
    r.push(get_known(options, "oom_exitcode"));
    r.push(get_known(options, "pulse_interval"));
    r.push(get_known(options, "debug"));
    r
}

} // verus!

