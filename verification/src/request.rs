//! The request and response values, and the pure halves of the
//! request/response cycle: constructing a request from a location string,
//! serializing it, and parsing an accumulated response buffer.
//!
//! Opening the connection, writing the request bytes and reading the raw
//! response are left to the caller; they are plain I/O around these
//! functions.

use vstd::prelude::*;

use crate::builder::build_request_bytes;
use crate::builder::spec_request_bytes;
use crate::builder::RequestKind;
use crate::error::Error;
use crate::json::json_bytes_of;
use crate::json::json_decoded;
use crate::json::json_from_slice;
use crate::json::json_to_vec;
use crate::location::parse_location;
use crate::location::url_location_of;
use crate::location::Location;
use crate::parse::parse_head;
use crate::parse::spec_parse_head;

verus! {

/// A request: a target location and a method.  It starts as GET; attaching a
/// payload turns it into POST.
pub struct Request {
    pub url: Location,
    pub kind: RequestKind,
}

/// A parsed response: the status code of the status line and the JSON body.
pub struct Response {
    pub status: u16,
    pub body: serde_json::Value,
}

impl Request {
    /// Parses the input string as a URL; the new request starts as GET.
    /// Fails with `ParseUrl` exactly when the string is not a well-formed
    /// URL.
    pub fn new(ip: &str) -> (r: Result<Request, Error>)
        ensures
            match r {
                Ok(req) => url_location_of(ip@) == Some(req.url) && req.kind is Get,
                Err(e) => url_location_of(ip@) is None && e == Error::ParseUrl,
            },
    {
        match parse_location(ip) {
            Ok(url) => Ok(Request { url, kind: RequestKind::Get }),
            Err(_) => Err(Error::ParseUrl),
        }
    }

    /// Flips the method to POST, leaving the location unchanged.  The
    /// posting operation does this before it serializes the payload.
    pub fn make_post(&mut self)
        ensures
            final(self).kind is Post,
            final(self).url == old(self).url,
    {
        self.kind = RequestKind::Post;
    }

    /// Serializes the request into the exact bytes to transmit.  A payload
    /// must be attached exactly when the method is POST.
    ///
    /// Fails with `NoHostString` exactly when the location has no host.  A
    /// payload the codec cannot encode would fail with `Serialize`, but the
    /// codec relied on encodes every JSON value, so a request with a host
    /// always serializes, to exactly the bytes the wire format prescribes
    /// for the encoded payload.
    pub fn request_bytes(&self, payload: Option<&serde_json::Value>) -> (r: Result<
        Vec<u8>,
        Error,
    >)
        requires
            (self.kind is Post) <==> (payload is Some),
        ensures
            match r {
                Ok(v) => {
                    &&& self.url.host is Some
                    &&& self.kind is Get ==> v@ == spec_request_bytes(
                        RequestKind::Get,
                        self.url.path@,
                        self.url.host->0@,
                        None,
                    )
                    &&& self.kind is Post ==> v@ == spec_request_bytes(
                        RequestKind::Post,
                        self.url.path@,
                        self.url.host->0@,
                        Some(json_bytes_of(*payload->0)),
                    )
                },
                Err(e) => self.url.host is None && e == Error::NoHostString,
            },
            self.url.host is Some <==> r is Ok,
    {
        if self.url.host.is_none() {
            return Err(Error::NoHostString);
        }
        match payload {
            Some(value) => {
                let encoded: Vec<u8> = match json_to_vec(value) {
                    Some(b) => b,
                    None => {
                        return Err(Error::Serialize);
                    },
                };
                build_request_bytes(self.kind, &self.url, Some(&encoded))
            },
            None => build_request_bytes(self.kind, &self.url, None),
        }
    }

    /// Interprets an accumulated raw response buffer: the status code comes
    /// from the status line as `spec_parse_head` states, and the bytes after
    /// the header block are decoded as the JSON body.  A head that
    /// `spec_parse_head` rejects fails with that error; otherwise the call
    /// succeeds exactly when the body bytes are valid JSON, with the decoded
    /// value as the body, and fails with `Serialize` when they are not.
    pub fn parse_response(&self, data: Vec<u8>) -> (r: Result<Response, Error>)
        ensures
            match spec_parse_head(data@) {
                Ok(head) => match r {
                    Ok(resp) => resp.status == head.0 && json_decoded(head.1) == Some(resp.body),
                    Err(e) => e == Error::Serialize && json_decoded(head.1) is None,
                },
                Err(e0) => match r {
                    Ok(_) => false,
                    Err(e) => e == e0,
                },
            },
    {
        match parse_head(data.as_slice()) {
            Ok((status, body_bytes)) => match json_from_slice(body_bytes) {
                Some(body) => Ok(Response { status, body }),
                None => Err(Error::Serialize),
            },
            Err(e) => Err(e),
        }
    }
}

} // verus!
