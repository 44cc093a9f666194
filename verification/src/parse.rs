//! The response parser: interprets an accumulated raw byte buffer as an
//! HTTP/1.1 response head.
//!
//! The buffer must open with the literal `"HTTP/1.1 "`; the next
//! space-delimited token is the decimal status code; the rest of the status
//! line and every header line are skipped up to the blank line; the remaining
//! bytes are the body.  `spec_parse_head` states the whole outcome, including
//! which error each malformed input produces.

use vstd::prelude::*;
use vstd::slice::slice_index_get;
use vstd::string::StringSliceAdditionalSpecFns;
use vstd::slice::slice_subrange;
use vstd::utf8::valid_utf8;

use crate::error::Error;

verus! {

/// The byte that delimits the status token.
pub const SPACE: u8 = 32;

/// The byte that ends a line.
pub const NEWLINE: u8 = 10;

/// The index of the first occurrence of `b` in `s`, or `s.len()` when `b`
/// does not occur.
pub open spec fn first_index_of(s: Seq<u8>, b: u8) -> int
    decreases s.len(),
{
    if s.len() == 0 {
        0
    } else if s[0] == b {
        0
    } else {
        1 + first_index_of(s.skip(1), b)
    }
}

pub proof fn lemma_first_index_of_bounds(s: Seq<u8>, b: u8)
    ensures
        0 <= first_index_of(s, b) <= s.len(),
        first_index_of(s, b) < s.len() ==> s[first_index_of(s, b)] == b,
        forall|j: int| 0 <= j < first_index_of(s, b) ==> s[j] != b,
    decreases s.len(),
{
    if s.len() == 0 {
    } else if s[0] == b {
    } else {
        lemma_first_index_of_bounds(s.skip(1), b);
        let i = first_index_of(s, b);
        assert forall|j: int| 0 <= j < i implies s[j] != b by {
            if j > 0 {
                assert(s.skip(1)[j - 1] == s[j]);
            }
        }
        if i < s.len() {
            assert(s.skip(1)[i - 1] == s[i]);
        }
    }
}

pub proof fn lemma_first_index_of_is(s: Seq<u8>, b: u8, i: int)
    requires
        0 <= i <= s.len(),
        forall|j: int| 0 <= j < i ==> s[j] != b,
        i < s.len() ==> s[i] == b,
    ensures
        first_index_of(s, b) == i,
    decreases s.len(),
{
    if s.len() == 0 {
    } else if s[0] == b {
        assert(i == 0);
    } else {
        assert(i >= 1);
        assert forall|j: int| 0 <= j < i - 1 implies s.skip(1)[j] != b by {
            assert(s.skip(1)[j] == s[j + 1]);
        }
        if i - 1 < s.len() - 1 {
            assert(s.skip(1)[i - 1] == s[i]);
        }
        lemma_first_index_of_is(s.skip(1), b, i - 1);
    }
}

/// The bytes strictly before the first occurrence of `b`; the whole sequence
/// when `b` does not occur.
pub open spec fn split_before(s: Seq<u8>, b: u8) -> Seq<u8> {
    s.take(first_index_of(s, b))
}

/// The bytes strictly after the first occurrence of `b`, the delimiter itself
/// consumed; empty when `b` does not occur.
pub open spec fn split_after(s: Seq<u8>, b: u8) -> Seq<u8> {
    let i = first_index_of(s, b);
    if 0 <= i && i < s.len() {
        s.skip(i + 1)
    } else {
        Seq::empty()
    }
}

/// Splits `data` at the first occurrence of `byte` into the bytes before it
/// and the bytes after it, consuming the delimiter.  When `byte` is absent,
/// the first half is all of `data` and the second half is empty.
pub fn slice_until_byte<'a>(data: &'a [u8], byte: u8) -> (r: (&'a [u8], &'a [u8]))
    ensures
        r.0@ == split_before(data@, byte),
        r.1@ == split_after(data@, byte),
{
    let mut i: usize = 0;
    while i < data.len() && *slice_index_get(data, i) != byte
        invariant
            i <= data@.len(),
            forall|j: int| 0 <= j < i ==> data@[j] != byte,
        decreases data@.len() - i,
    {
        i = i + 1;
    }
    proof {
        lemma_first_index_of_is(data@, byte, i as int);
    }
    let before = slice_subrange(data, 0, i);
    if i < data.len() {
        let after = slice_subrange(data, i + 1, data.len());
        (before, after)
    } else {
        let after = slice_subrange(data, data.len(), data.len());
        proof {
            assert(after@ =~= Seq::<u8>::empty());
        }
        (before, after)
    }
}

/// Walks the header block: skips one line at a time until the byte right
/// after the current position is itself a newline, then consumes that blank
/// line and returns the body.  `None` when the buffer runs out before a blank
/// line is found.
pub open spec fn spec_skip_headers(s: Seq<u8>) -> Option<Seq<u8>>
    decreases s.len(),
{
    if s.len() < 2 {
        None
    } else if s[1] == NEWLINE {
        Some(split_after(s, NEWLINE))
    } else {
        spec_skip_headers(split_after(s, NEWLINE))
    }
}

/// Skips the header block of `start`, returning the body slice, or `None`
/// when no blank line ends the headers.
pub fn skip_headers<'a>(start: &'a [u8]) -> (r: Option<&'a [u8]>)
    ensures
        match r {
            Some(body) => spec_skip_headers(start@) == Some(body@),
            None => spec_skip_headers(start@) is None,
        },
{
    let mut s: &[u8] = start;
    loop
        invariant
            spec_skip_headers(start@) == spec_skip_headers(s@),
        decreases s@.len(),
    {
        if s.len() < 2 {
            return None;
        }
        if *slice_index_get(s, 1) == NEWLINE {
            let (_, after) = slice_until_byte(s, NEWLINE);
            return Some(after);
        }
        proof {
            lemma_first_index_of_bounds(s@, NEWLINE);
        }
        let (_, after) = slice_until_byte(s, NEWLINE);
        s = after;
    }
}

/// True of a byte that is an ASCII decimal digit.
pub open spec fn is_digit_byte(b: u8) -> bool {
    48 <= b && b <= 57
}

/// True when every byte of `s` is an ASCII decimal digit.
pub open spec fn all_digits(s: Seq<u8>) -> bool {
    forall|i: int| 0 <= i < s.len() ==> is_digit_byte(#[trigger] s[i])
}

/// The value of `s` read as a decimal numeral, most significant digit first.
pub open spec fn dec_value(s: Seq<u8>) -> int
    recommends
        all_digits(s),
    decreases s.len(),
{
    if s.len() == 0 {
        0
    } else {
        dec_value(s.drop_last()) * 10 + (s.last() - 48)
    }
}

/// True when `s` is a valid unsigned 16-bit decimal numeral: nonempty, all
/// digits, value at most 65535.
pub open spec fn is_u16_token(s: Seq<u8>) -> bool {
    s.len() > 0 && all_digits(s) && dec_value(s) <= 65535
}

pub proof fn lemma_dec_value_nonneg(s: Seq<u8>)
    requires
        all_digits(s),
    ensures
        dec_value(s) >= 0,
    decreases s.len(),
{
    if s.len() > 0 {
        assert forall|j: int| 0 <= j < s.drop_last().len() implies is_digit_byte(
            #[trigger] s.drop_last()[j],
        ) by {
            assert(s.drop_last()[j] == s[j]);
        }
        lemma_dec_value_nonneg(s.drop_last());
    }
}

/// Reading more digits of a numeral never lowers its value.
pub proof fn lemma_dec_value_prefix_le(s: Seq<u8>, k: int)
    requires
        0 <= k <= s.len(),
        all_digits(s),
    ensures
        dec_value(s.take(k)) <= dec_value(s),
    decreases s.len() - k,
{
    assert forall|j: int| 0 <= j < s.take(k).len() implies is_digit_byte(
        #[trigger] s.take(k)[j],
    ) by {
        assert(s.take(k)[j] == s[j]);
    }
    if k < s.len() {
        assert(s.take(k + 1).drop_last() =~= s.take(k));
        assert(s.take(k + 1).last() == s[k]);
        lemma_dec_value_nonneg(s.take(k));
        lemma_dec_value_prefix_le(s, k + 1);
    } else {
        assert(s.take(k) =~= s);
    }
}

/// Parses a nonempty all-digit token as an unsigned 16-bit decimal; `None`
/// when the token is empty, holds a non-digit, or exceeds 65535.
pub fn parse_u16_dec(token: &[u8]) -> (r: Option<u16>)
    ensures
        match r {
            Some(v) => is_u16_token(token@) && v as int == dec_value(token@),
            None => !is_u16_token(token@),
        },
{
    if token.len() == 0 {
        return None;
    }
    let mut i: usize = 0;
    let mut val: u32 = 0;
    while i < token.len()
        invariant
            i <= token@.len(),
            all_digits(token@.take(i as int)),
            val as int == dec_value(token@.take(i as int)),
            0 <= val <= 65535,
        decreases token@.len() - i,
    {
        let b: u8 = *slice_index_get(token, i);
        if b < 48 || b > 57 {
            proof {
                assert(!is_digit_byte(token@[i as int]));
            }
            return None;
        }
        val = val * 10 + ((b - 48) as u32);
        proof {
            assert(token@.take(i + 1).drop_last() =~= token@.take(i as int));
            assert(token@.take(i + 1).last() == token@[i as int]);
            assert forall|j: int| 0 <= j < token@.take(i + 1).len() implies is_digit_byte(
                #[trigger] token@.take(i + 1)[j],
            ) by {
                assert(token@.take(i + 1)[j] == token@[j]);
            }
        }
        if val > 65535 {
            proof {
                if all_digits(token@) {
                    lemma_dec_value_prefix_le(token@, i + 1);
                }
            }
            return None;
        }
        i = i + 1;
    }
    proof {
        assert(token@.take(token@.len() as int) =~= token@);
    }
    Some(val as u16)
}

/// Decides whether `bytes` is a valid UTF-8 encoding, one scalar at a time:
/// each leading byte announces the width of its encoding, the following
/// bytes must be continuation bytes, and the decoded codepoint must be
/// neither an overlong encoding nor a surrogate.
pub fn utf8_check(bytes: &[u8]) -> (r: bool)
    ensures
        r == valid_utf8(bytes@),
{
    let n = bytes.len();
    let mut i: usize = 0;
    proof {
        assert(bytes@.skip(0) =~= bytes@);
    }
    while i < n
        invariant
            n == bytes@.len(),
            i <= n,
            valid_utf8(bytes@) == valid_utf8(bytes@.skip(i as int)),
        decreases n - i,
    {
        let ghost suffix = bytes@.skip(i as int);
        let remaining = n - i;
        let b1 = *slice_index_get(bytes, i);
        proof {
            assert(suffix[0] == bytes@[i as int]);
            assert(suffix.len() == n - i);
        }
        if b1 <= 0x7f {
            proof {
                assert(b1 & 0x7f <= 0x7f) by (bit_vector);
                assert(vstd::utf8::valid_first_scalar(suffix));
                assert(vstd::utf8::pop_first_scalar(suffix) =~= bytes@.skip(i + 1));
            }
            i = i + 1;
        } else if 0xc0 <= b1 && b1 <= 0xdf {
            if remaining < 2 {
                return false;
            }
            let b2 = *slice_index_get(bytes, i + 1);
            proof {
                assert(suffix[1] == bytes@[i + 1]);
            }
            if !(0x80 <= b2 && b2 <= 0xbf) {
                return false;
            }
            let cp: u32 = (((b1 & 0x1f) as u32) << 6u32) | ((b2 & 0x3f) as u32);
            if cp < 0x80 {
                return false;
            }
            proof {
                let l: u32 = (b1 & 0x1f) as u32;
                let c: u32 = (b2 & 0x3f) as u32;
                assert(b1 & 0x1f <= 0x1f) by (bit_vector);
                assert(b2 & 0x3f <= 0x3f) by (bit_vector);
                assert(l <= 0x1f && c <= 0x3f ==> ((l << 6u32) | c) <= 0x7ff) by (bit_vector);
                assert(vstd::utf8::decode_first_codepoint(suffix) == cp);
                assert(vstd::utf8::valid_first_scalar(suffix));
                assert(vstd::utf8::length_of_first_scalar(suffix) == 2);
                assert(vstd::utf8::pop_first_scalar(suffix) =~= bytes@.skip(i + 2));
            }
            i = i + 2;
        } else if 0xe0 <= b1 && b1 <= 0xef {
            if remaining < 3 {
                return false;
            }
            let b2 = *slice_index_get(bytes, i + 1);
            let b3 = *slice_index_get(bytes, i + 2);
            proof {
                assert(suffix[1] == bytes@[i + 1]);
                assert(suffix[2] == bytes@[i + 2]);
            }
            if !(0x80 <= b2 && b2 <= 0xbf) || !(0x80 <= b3 && b3 <= 0xbf) {
                return false;
            }
            let cp: u32 = (((b1 & 0x0f) as u32) << 12u32) | (((b2 & 0x3f) as u32) << 6u32) | ((
            b3 & 0x3f) as u32);
            if cp < 0x800 {
                return false;
            }
            if 0xd800 <= cp && cp <= 0xdfff {
                return false;
            }
            proof {
                assert(vstd::utf8::decode_first_codepoint(suffix) == cp);
                assert(vstd::utf8::valid_first_scalar(suffix));
                assert(vstd::utf8::length_of_first_scalar(suffix) == 3);
                assert(vstd::utf8::pop_first_scalar(suffix) =~= bytes@.skip(i + 3));
            }
            i = i + 3;
        } else if 0xf0 <= b1 && b1 <= 0xf7 {
            if remaining < 4 {
                return false;
            }
            let b2 = *slice_index_get(bytes, i + 1);
            let b3 = *slice_index_get(bytes, i + 2);
            let b4 = *slice_index_get(bytes, i + 3);
            proof {
                assert(suffix[1] == bytes@[i + 1]);
                assert(suffix[2] == bytes@[i + 2]);
                assert(suffix[3] == bytes@[i + 3]);
            }
            if !(0x80 <= b2 && b2 <= 0xbf) || !(0x80 <= b3 && b3 <= 0xbf) || !(0x80 <= b4 && b4
                <= 0xbf) {
                return false;
            }
            let cp: u32 = (((b1 & 0x07) as u32) << 18u32) | (((b2 & 0x3f) as u32) << 12u32) | (((
            b3 & 0x3f) as u32) << 6u32) | ((b4 & 0x3f) as u32);
            if !(0x10000 <= cp && cp <= 0x10ffff) {
                return false;
            }
            proof {
                assert(vstd::utf8::decode_first_codepoint(suffix) == cp);
                assert(vstd::utf8::valid_first_scalar(suffix));
                assert(vstd::utf8::length_of_first_scalar(suffix) == 4);
                assert(vstd::utf8::pop_first_scalar(suffix) =~= bytes@.skip(i + 4));
            }
            i = i + 4;
        } else {
            return false;
        }
    }
    proof {
        assert(bytes@.skip(n as int) =~= Seq::<u8>::empty());
    }
    true
}

/// The bytes every well-formed response must open with.
pub open spec fn http_prefix_bytes() -> Seq<u8> {
    "HTTP/1.1 ".spec_bytes()
}

/// True when `data` opens with the literal `"HTTP/1.1 "`.
pub open spec fn spec_has_http_prefix(data: Seq<u8>) -> bool {
    data.len() >= http_prefix_bytes().len() && data.take(http_prefix_bytes().len() as int)
        == http_prefix_bytes()
}

/// True when `data` opens with the bytes of `pat`.
fn starts_with_bytes(data: &[u8], pat: &[u8]) -> (r: bool)
    ensures
        r == (data@.len() >= pat@.len() && data@.take(pat@.len() as int) == pat@),
{
    if data.len() < pat.len() {
        return false;
    }
    let mut i: usize = 0;
    while i < pat.len()
        invariant
            i <= pat@.len(),
            pat@.len() <= data@.len(),
            forall|j: int| 0 <= j < i ==> data@[j] == pat@[j],
        decreases pat@.len() - i,
    {
        if *slice_index_get(data, i) != *slice_index_get(pat, i) {
            proof {
                assert(data@.take(pat@.len() as int)[i as int] == data@[i as int]);
            }
            return false;
        }
        i = i + 1;
    }
    proof {
        assert(data@.take(pat@.len() as int) =~= pat@);
    }
    true
}

/// The outcome of parsing a raw response buffer into a status code and the
/// body bytes:
/// - `HttpParse` when the buffer does not open with `"HTTP/1.1 "`, or when no
///   blank line ends the header block;
/// - `Utf8` when the status token is not valid UTF-8;
/// - `ParseInt` when the status token is not a valid unsigned 16-bit decimal;
/// - otherwise the status value and the bytes after the header block.
pub open spec fn spec_parse_head(data: Seq<u8>) -> Result<(u16, Seq<u8>), Error> {
    if !spec_has_http_prefix(data) {
        Err(Error::HttpParse)
    } else {
        let rest = data.skip(http_prefix_bytes().len() as int);
        let token = split_before(rest, SPACE);
        let after_token = split_after(rest, SPACE);
        if !valid_utf8(token) {
            Err(Error::Utf8)
        } else if !is_u16_token(token) {
            Err(Error::ParseInt)
        } else {
            match spec_skip_headers(split_after(after_token, NEWLINE)) {
                Some(body) => Ok((dec_value(token) as u16, body)),
                None => Err(Error::HttpParse),
            }
        }
    }
}

/// Parses the status line and skips the header block, returning the status
/// code and the body slice, exactly as `spec_parse_head` states.
pub fn parse_head<'a>(data: &'a [u8]) -> (r: Result<(u16, &'a [u8]), Error>)
    ensures
        match r {
            Ok((status, body)) => spec_parse_head(data@) == Ok::<(u16, Seq<u8>), Error>(
                (status, body@),
            ),
            Err(e) => spec_parse_head(data@) == Err::<(u16, Seq<u8>), Error>(e),
        },
{
    let prefix: &[u8] = "HTTP/1.1 ".as_bytes();
    if !starts_with_bytes(data, prefix) {
        return Err(Error::HttpParse);
    }
    let rest = slice_subrange(data, prefix.len(), data.len());
    proof {
        assert(rest@ =~= data@.skip(http_prefix_bytes().len() as int));
    }
    let (token, after_token) = slice_until_byte(rest, SPACE);
    if !utf8_check(token) {
        return Err(Error::Utf8);
    }
    let status: u16 = match parse_u16_dec(token) {
        Some(v) => v,
        None => {
            return Err(Error::ParseInt);
        },
    };
    let (_, line_rest) = slice_until_byte(after_token, NEWLINE);
    match skip_headers(line_rest) {
        Some(body) => Ok((status, body)),
        None => Err(Error::HttpParse),
    }
}

} // verus!
