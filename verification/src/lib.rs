//! A minimal client-side HTTP/1.1 library.
//!
//! The library serializes GET and POST requests by hand, decides when a
//! response has been fully received, and parses the raw response bytes into a
//! status code and a JSON body.  URL parsing and the JSON codec are outside
//! collaborators; opening and driving the connection is left to the caller.

pub mod builder;
pub mod error;
pub mod json;
pub mod laws;
pub mod location;
pub mod parse;
pub mod reader;
pub mod request;

pub use builder::RequestKind;
pub use error::Error;
pub use location::Location;
pub use request::Request;
pub use request::Response;
