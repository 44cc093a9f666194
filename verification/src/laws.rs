//! Properties that relate several parts of the library, stated and proved
//! once for all inputs.

use vstd::prelude::*;
use vstd::utf8::encode_utf8;

use crate::builder::dec_chars;
use crate::builder::spec_pre_chars;
use crate::builder::spec_request_bytes;
use crate::builder::RequestKind;
use crate::location::spec_effective_port;
use crate::location::Location;
use crate::parse::all_digits;
use crate::parse::dec_value;

verus! {

/// The bytes standing for a sequence of ASCII characters, one byte per
/// character.
pub open spec fn char_bytes(s: Seq<char>) -> Seq<u8> {
    Seq::new(s.len(), |i: int| s[i] as u8)
}

/// The decimal rendering of `n` denotes `n`: every character is a digit, and
/// reading the rendering back as a numeral yields `n` again.
pub proof fn lemma_dec_chars_value(n: int)
    requires
        n >= 0,
    ensures
        all_digits(char_bytes(dec_chars(n))),
        dec_value(char_bytes(dec_chars(n))) == n,
    decreases n,
{
    if n < 10 {
        let whole = char_bytes(dec_chars(n));
        assert(whole =~= seq![(48 + n) as u8]);
        assert(whole.drop_last() =~= Seq::<u8>::empty());
        assert(dec_value(whole.drop_last()) == 0);
        assert(whole.last() == (48 + n) as u8);
        assert(dec_value(whole) == (48 + n) as u8 - 48);
        assert((48 + n) as u8 == 48 + n);
    } else {
        lemma_dec_chars_value(n / 10);
        let prefix = char_bytes(dec_chars(n / 10));
        let whole = char_bytes(dec_chars(n));
        assert(whole =~= prefix + seq![(48 + n % 10) as u8]);
        assert(whole.drop_last() =~= prefix);
        assert(whole.last() == (48 + n % 10) as u8);
        assert(dec_value(whole) == dec_value(prefix) * 10 + n % 10);
        assert(dec_value(whole) == n) by {
            assert(n == (n / 10) * 10 + n % 10);
        }
    }
}

/// An explicit port settles where the connection goes, and nowhere else: the
/// connection uses exactly that port, while the serialized bytes mirror the
/// host string alone, so two locations that agree on host and path produce
/// identical request bytes whatever their ports say.
pub proof fn lemma_port_resolved_not_serialized(
    kind: RequestKind,
    l1: Location,
    l2: Location,
    body: Option<Seq<u8>>,
    p: u16,
)
    requires
        l1.port == Some(p),
        l1.host == l2.host,
        l1.path == l2.path,
    ensures
        spec_effective_port(l1) == p,
        spec_request_bytes(kind, l1.path@, l1.host->0@, body) == spec_request_bytes(
            kind,
            l2.path@,
            l2.host->0@,
            body,
        ),
{
}

/// A POST request transmits a Content-Length header carrying the decimal
/// rendering of the exact byte length of the encoded payload, and after the
/// blank line the payload bytes themselves, unchanged.
pub proof fn lemma_content_length_exact(path: Seq<char>, host: Seq<char>, b: Seq<u8>)
    ensures
        spec_request_bytes(RequestKind::Post, path, host, Some(b)) == encode_utf8(
            spec_pre_chars(RequestKind::Post, path, host) + "Content-Length: "@ + dec_chars(
                b.len() as int,
            ) + "\r\n\r\n"@,
        ) + b,
        dec_value(char_bytes(dec_chars(b.len() as int))) == b.len(),
{
    lemma_dec_chars_value(b.len() as int);
}

} // verus!
