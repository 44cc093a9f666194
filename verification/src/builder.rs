//! The request builder: given a location, a method and an optional
//! already-encoded payload, it produces the exact byte sequence that is
//! written to the connection.
//!
//! The wire image is pinned down by `spec_request_bytes`: request line, Host
//! header, Content-Type header, Content-Length header, a blank line, then the
//! payload bytes unchanged.

use vstd::prelude::*;
use vstd::string::StringExecFns;
use vstd::utf8::encode_utf8;

use crate::error::Error;
use crate::location::Location;

verus! {

/// The verb of a request.  A request starts as `Get` and becomes `Post` only
/// when a payload is attached.
#[derive(Clone, Copy, Debug, PartialEq, Eq, Structural)]
pub enum RequestKind {
    Get,
    Post,
}

/// The characters of the method token on the wire.
pub open spec fn method_chars(kind: RequestKind) -> Seq<char> {
    match kind {
        RequestKind::Get => "GET"@,
        RequestKind::Post => "POST"@,
    }
}

impl RequestKind {
    /// The method token as it appears in the request line.
    pub fn as_str(&self) -> (r: &'static str)
        ensures
            r@ == method_chars(*self),
    {
        match self {
            RequestKind::Get => "GET",
            RequestKind::Post => "POST",
        }
    }
}

/// The character standing for a single decimal digit.
pub open spec fn digit_char(d: int) -> char {
    if d == 0 {
        '0'
    } else if d == 1 {
        '1'
    } else if d == 2 {
        '2'
    } else if d == 3 {
        '3'
    } else if d == 4 {
        '4'
    } else if d == 5 {
        '5'
    } else if d == 6 {
        '6'
    } else if d == 7 {
        '7'
    } else if d == 8 {
        '8'
    } else {
        '9'
    }
}

/// The decimal rendering of a nonnegative integer, most significant digit
/// first, with no leading zeros (a single `'0'` for zero).
pub open spec fn dec_chars(n: int) -> Seq<char>
    recommends
        n >= 0,
    decreases n,
{
    if n < 10 {
        seq![digit_char(n)]
    } else {
        dec_chars(n / 10) + seq![digit_char(n % 10)]
    }
}

/// Appends the decimal rendering of `n` to `s`.
fn append_decimal(s: &mut String, n: usize)
    ensures
        final(s)@ == old(s)@ + dec_chars(n as int),
    decreases n,
{
    if n >= 10 {
        append_decimal(s, n / 10);
    }
    let d: usize = n % 10;
    let ds: &str = if d == 0 {
        "0"
    } else if d == 1 {
        "1"
    } else if d == 2 {
        "2"
    } else if d == 3 {
        "3"
    } else if d == 4 {
        "4"
    } else if d == 5 {
        "5"
    } else if d == 6 {
        "6"
    } else if d == 7 {
        "7"
    } else if d == 8 {
        "8"
    } else {
        "9"
    };
    proof {
        reveal_strlit("0");
        reveal_strlit("1");
        reveal_strlit("2");
        reveal_strlit("3");
        reveal_strlit("4");
        reveal_strlit("5");
        reveal_strlit("6");
        reveal_strlit("7");
        reveal_strlit("8");
        reveal_strlit("9");
        assert(ds@ =~= seq![digit_char(d as int)]);
    }
    s.append(ds);
    proof {
        assert(s@ =~= old(s)@ + dec_chars(n as int));
    }
}

/// The head characters up to and including the Content-Type header line.
pub open spec fn spec_pre_chars(kind: RequestKind, path: Seq<char>, host: Seq<char>) -> Seq<
    char,
> {
    method_chars(kind) + " "@ + path + " HTTP/1.1\r\n"@ + "Host: "@ + host + "\r\n"@
        + "Content-Type: application/json\r\n"@
}

/// The characters of the whole request head for a body of `len` bytes,
/// including the blank line that ends the header block.
pub open spec fn spec_head_chars(
    kind: RequestKind,
    path: Seq<char>,
    host: Seq<char>,
    len: int,
) -> Seq<char> {
    spec_pre_chars(kind, path, host) + "Content-Length: "@ + dec_chars(len) + "\r\n\r\n"@
}

/// The byte length of an optional payload.
pub open spec fn spec_body_len(body: Option<Seq<u8>>) -> int {
    match body {
        Some(b) => b.len() as int,
        None => 0,
    }
}

/// The bytes of an optional payload; empty when there is none.
pub open spec fn spec_body_bytes(body: Option<Seq<u8>>) -> Seq<u8> {
    match body {
        Some(b) => b,
        None => Seq::empty(),
    }
}

/// The exact byte sequence of a serialized request: the UTF-8 bytes of the
/// head followed by the payload bytes unchanged.
pub open spec fn spec_request_bytes(
    kind: RequestKind,
    path: Seq<char>,
    host: Seq<char>,
    body: Option<Seq<u8>>,
) -> Seq<u8> {
    encode_utf8(spec_head_chars(kind, path, host, spec_body_len(body))) + spec_body_bytes(body)
}

/// The view of an optional borrowed byte vector.
pub open spec fn spec_opt_bytes(body: Option<&Vec<u8>>) -> Option<Seq<u8>> {
    match body {
        Some(b) => Some(b@),
        None => None,
    }
}

/// Appends every byte of `bytes` to `out`, in order.
pub fn push_all(out: &mut Vec<u8>, bytes: &[u8])
    ensures
        final(out)@ == old(out)@ + bytes@,
{
    let mut i: usize = 0;
    while i < bytes.len()
        invariant
            i <= bytes@.len(),
            out@ == old(out)@ + bytes@.take(i as int),
        decreases bytes@.len() - i,
    {
        let b: u8 = *vstd::slice::slice_index_get(bytes, i);
        out.push(b);
        proof {
            assert(out@ =~= old(out)@ + bytes@.take(i + 1));
        }
        i = i + 1;
    }
    proof {
        assert(out@ =~= old(out)@ + bytes@);
    }
}

/// Serializes a request.  The payload must be present exactly when the method
/// is POST; the result is the exact wire image, or `NoHostString` when the
/// location has no host.
pub fn build_request_bytes(kind: RequestKind, loc: &Location, body: Option<&Vec<u8>>) -> (r:
    Result<Vec<u8>, Error>)
    requires
        (kind is Post) <==> (body is Some),
    ensures
        match r {
            Ok(v) => loc.host is Some && v@ == spec_request_bytes(
                kind,
                loc.path@,
                loc.host->0@,
                spec_opt_bytes(body),
            ),
            Err(e) => loc.host is None && e == Error::NoHostString,
        },
{
    let host: &String = match &loc.host {
        Some(h) => h,
        None => {
            return Err(Error::NoHostString);
        },
    };
    let mut head: String = String::new();
    head.append(kind.as_str());
    head.append(" ");
    head.append(loc.path.as_str());
    head.append(" HTTP/1.1\r\n");
    head.append("Host: ");
    head.append(host.as_str());
    head.append("\r\n");
    head.append("Content-Type: application/json\r\n");
    head.append("Content-Length: ");
    let n: usize = match body {
        Some(b) => b.len(),
        None => 0,
    };
    append_decimal(&mut head, n);
    head.append("\r\n\r\n");
    proof {
        assert(head@ =~= spec_head_chars(kind, loc.path@, host@, n as int));
    }
    let mut out: Vec<u8> = Vec::new();
    push_all(&mut out, head.as_str().as_bytes());
    match body {
        Some(b) => {
            push_all(&mut out, b.as_slice());
        },
        None => {},
    }
    proof {
        assert(out@ =~= spec_request_bytes(kind, loc.path@, host@, spec_opt_bytes(body)));
    }
    Ok(out)
}

} // verus!
