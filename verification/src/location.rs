//! The target of a request: scheme, host, optional port and path, as plain
//! values.  A `Location` is obtained by parsing a URL string through the
//! outside URL parser and is immutable afterwards.

use vstd::prelude::*;

verus! {

/// The port used when the location does not specify one.
pub const DEFAULT_PORT: u16 = 8000;

/// A parsed target address.  `host` is `None` for URLs without a host
/// component (the request builder refuses those); `port` is `None` when the
/// parsed URL exposes no port: no explicit port in the input string, or a
/// port the URL parser drops as the scheme's known default.
#[derive(Debug)]
pub struct Location {
    pub scheme: String,
    pub host: Option<String>,
    pub port: Option<u16>,
    pub path: String,
}

/// The outcome of the outside URL parser on a given input string: `None` when
/// the string is not a well-formed absolute URL, otherwise the components it
/// exposes.
pub uninterp spec fn url_location_of(s: Seq<char>) -> Option<Location>;

#[verifier::external_type_specification]
#[verifier::external_body]
pub struct ExUrlParseError(url::ParseError);

/// Relies on `url::Url::parse` and the accessors `scheme`, `host_str`, `port`
/// and `path`: parsing is deterministic, and the components depend on the
/// input string alone.
#[verifier::external_body]
pub(crate) fn parse_location(input: &str) -> (r: Result<Location, url::ParseError>)
    ensures
        match r {
            Ok(loc) => url_location_of(input@) == Some(loc),
            Err(_) => url_location_of(input@) is None,
        },
{
    let u = url::Url::parse(input)?;
    Ok(Location {
        scheme: u.scheme().to_string(),
        host: u.host_str().map(|h| h.to_string()),
        port: u.port(),
        path: u.path().to_string(),
    })
}

/// The port a connection to this location must use: the explicit port when
/// one was given, `DEFAULT_PORT` otherwise.
pub open spec fn spec_effective_port(loc: Location) -> u16 {
    match loc.port {
        Some(p) => p,
        None => DEFAULT_PORT,
    }
}

impl Location {
    /// The port a connection to this location must use.
    pub fn effective_port(&self) -> (r: u16)
        ensures
            r == spec_effective_port(*self),
    {
        match self.port {
            Some(p) => p,
            None => DEFAULT_PORT,
        }
    }
}

} // verus!
