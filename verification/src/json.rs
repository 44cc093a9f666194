//! The boundary to the outside JSON codec.  A JSON value is opaque to the
//! library: it is carried through, encoded to bytes before sending and
//! decoded from the body bytes of a response, never inspected.

use vstd::prelude::*;

verus! {

#[verifier::external_type_specification]
#[verifier::external_body]
pub struct ExValue(serde_json::Value);

/// The compact JSON text of a value, as the outside codec writes it: a
/// function of the value alone.
pub uninterp spec fn json_bytes_of(v: serde_json::Value) -> Seq<u8>;

/// The outcome of the outside codec on a byte sequence: the value it decodes
/// to, or `None` when the bytes are not valid JSON.  A function of the bytes
/// alone.
pub uninterp spec fn json_decoded(bytes: Seq<u8>) -> Option<serde_json::Value>;

/// Relies on `serde_json::to_vec`: encodes a JSON value as compact JSON
/// text, deterministically.  It cannot fail on a JSON value: its writer is a
/// growable byte vector, and every object key of such a value is a string.
#[verifier::external_body]
pub(crate) fn json_to_vec(value: &serde_json::Value) -> (r: Option<Vec<u8>>)
    ensures
        r is Some,
        r->0@ == json_bytes_of(*value),
{
    serde_json::to_vec(value).ok()
}

/// Relies on `serde_json::from_slice`: decodes bytes as a JSON value,
/// deterministically; `None` exactly on malformed JSON.
#[verifier::external_body]
pub(crate) fn json_from_slice(bytes: &[u8]) -> (r: Option<serde_json::Value>)
    ensures
        match r {
            Some(v) => json_decoded(bytes@) == Some(v),
            None => json_decoded(bytes@) is None,
        },
{
    serde_json::from_slice(bytes).ok()
}

} // verus!
