//! A request/response marshalling bridge between an HTTP front end and a
//! one-shot external script interpreter.
//!
//! The library covers the data transformations of that bridge: normalizing a
//! request into a multi-valued string map, rendering it as interpreter
//! literal syntax, composing the script text around per-invocation sentinel
//! tokens, splitting the captured interpreter output back into body, header
//! lines and session document, and keeping per-client session state.
//! The HTTP listener, the subprocess itself and all file handling live
//! outside the library and exchange plain values with it.

use vstd::prelude::*;

pub mod bridge;
pub mod literal;
pub mod multimap;
pub mod numeric;
pub mod parsing;
pub mod request;
pub mod response;
pub mod session;
pub mod strutil;

verus! {

/// The two user-visible failure kinds: request-shape problems and
/// infrastructure problems. Every failure of the bridge is one of these.
#[derive(Clone, Copy, Debug, PartialEq, Eq, Structural)]
pub enum ServerError {
    BadRequest,
    InternalServerError,
}

impl ServerError {
    /// The status line reported to the client for this failure kind.
    pub fn message(&self) -> (m: &'static str)
        ensures
            *self == ServerError::BadRequest ==> m@ == "400 Bad Request"@,
            *self == ServerError::InternalServerError ==> m@ == "500 Internal Server Error"@,
    {
        match self {
            ServerError::BadRequest => "400 Bad Request",
            ServerError::InternalServerError => "500 Internal Server Error",
        }
    }
}

} // verus!
