//! The error taxonomy of the library: one flat enumeration, each variant
//! naming the stage of the request/response cycle that failed.

use vstd::prelude::*;

verus! {

/// Everything that can go wrong while building, sending or parsing a request.
///
/// Every fallible step returns its failure immediately; there is no recovery
/// anywhere in the library.
#[derive(Clone, Copy, Debug, PartialEq, Eq, Structural)]
pub enum Error {
    /// The JSON codec could not encode the payload or decode the body.
    Serialize,
    /// An I/O failure while connecting, writing or reading.
    Resolve,
    /// A parsed token was not valid UTF-8.
    Utf8,
    /// The status token was not a valid unsigned 16-bit decimal.
    ParseInt,
    /// The input location string was not a well-formed URL.
    ParseUrl,
    /// The location carries no host component.
    NoHostString,
    /// The response does not begin with the expected status-line prefix.
    HttpParse,
}

impl Error {
    /// A short human-readable description of the error.
    pub fn describe(&self) -> (r: &'static str)
        ensures
            r@ == match *self {
                Error::Serialize => "Serialize error"@,
                Error::Resolve => "Resolve error"@,
                Error::Utf8 => "Utf8 error"@,
                Error::ParseInt => "ParseInt error"@,
                Error::ParseUrl => "ParseUrl error"@,
                Error::NoHostString => "No host string"@,
                Error::HttpParse => "Http parse error"@,
            },
    {
        match self {
            Error::Serialize => "Serialize error",
            Error::Resolve => "Resolve error",
            Error::Utf8 => "Utf8 error",
            Error::ParseInt => "ParseInt error",
            Error::ParseUrl => "ParseUrl error",
            Error::NoHostString => "No host string",
            Error::HttpParse => "Http parse error",
        }
    }
}

} // verus!
