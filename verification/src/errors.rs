//! The error taxonomy of the library. Each variant is a distinct kind of
//! failure; `message` renders the user-visible diagnostic line.

use vstd::prelude::*;
use vstd::string::StringExecFns;

use crate::text::{dec_str_i64, decimal_chars_i64, push_char};

verus! {

/// Everything that can go wrong in the core: pagination parsing, storage
/// faults, a missing record, the Basic-Auth error taxonomy, and a rejection
/// by the external validation service.
#[derive(Debug, PartialEq, Eq)]
pub enum Error {
    /// Pagination info (page_no or page_size) cannot be converted from a
    /// string to a non-negative integer; carries the offending text.
    StringToU32(String),
    /// Database specific error: an opaque wrapper around a storage fault.
    Db(String),
    /// The record with the provided identifier is not in the repository.
    NotFound { id: i32 },
    /// The HTTP Authorization header value is invalid: it has no separating
    /// space, or the decoded payload has no `username:password` separator.
    InvalidAuthHeader,
    /// The header is well-formed but its scheme token is not `Basic`.
    InvalidScheme(String),
    /// The credential segment is not valid base64 (a segment with an internal
    /// space is treated as malformed rather than parsed leniently).
    InvalidBase64Value(String),
    /// The decoded credential bytes are not valid text.
    InvalidUtf8Value(String),
    /// The external validation call failed and is not retried.
    ReqwestMiddleware(String),
}

impl Clone for Error {
    fn clone(&self) -> (r: Self)
        ensures
            r == *self,
    {
        match self {
            Error::StringToU32(m) => Error::StringToU32(m.clone()),
            Error::Db(m) => Error::Db(m.clone()),
            Error::NotFound { id } => Error::NotFound { id: *id },
            Error::InvalidAuthHeader => Error::InvalidAuthHeader,
            Error::InvalidScheme(m) => Error::InvalidScheme(m.clone()),
            Error::InvalidBase64Value(m) => Error::InvalidBase64Value(m.clone()),
            Error::InvalidUtf8Value(m) => Error::InvalidUtf8Value(m.clone()),
            Error::ReqwestMiddleware(m) => Error::ReqwestMiddleware(m.clone()),
        }
    }
}

/// The diagnostic line that `message` renders for an error.
pub open spec fn error_message(e: Error) -> Seq<char> {
    match e {
        Error::StringToU32(m) =>
            "Pagination info (page_no or page_size) cannot be converted from String to u32: "@
            + m@,
        Error::Db(m) => "Database specific error: "@ + m@,
        Error::NotFound { id } => "Entity with provided ID ("@ + dec_str_i64(id as int)
            + ") is not found in the repository."@,
        Error::InvalidAuthHeader => "Invalid value provided for the HTTP Authorization header"@,
        Error::InvalidScheme(m) => "The scheme provided ("@ + m@ + ") is not Basic"@,
        Error::InvalidBase64Value(m) => "The value have an invalid base64 encoding: "@ + m@,
        Error::InvalidUtf8Value(m) => "Invalid UTF-8 Provided: "@ + m@,
        Error::ReqwestMiddleware(m) => "The external validation api call failed "@ + m@,
    }
}

impl Error {
    /// The user-visible description of the error.
    pub fn message(&self) -> (r: String)
        ensures
            r@ == error_message(*self),
    {
        match self {
            Error::StringToU32(m) => {
                let mut s =
                    "Pagination info (page_no or page_size) cannot be converted from String to u32: ".to_owned();
                s.append(m.as_str());
                s
            },
            Error::Db(m) => {
                let mut s = "Database specific error: ".to_owned();
                s.append(m.as_str());
                s
            },
            Error::NotFound { id } => {
                let mut s = "Entity with provided ID (".to_owned();
                let digits = decimal_chars_i64(*id as i64);
                let mut i: usize = 0;
                while i < digits.len()
                    invariant
                        i <= digits.len(),
                        digits@ == dec_str_i64(*id as int),
                        s@ == "Entity with provided ID ("@ + digits@.subrange(0, i as int),
                    decreases digits.len() - i,
                {
                    push_char(&mut s, digits[i]);
                    proof {
                        assert(s@ =~= "Entity with provided ID ("@ + digits@.subrange(
                            0,
                            i + 1 as int,
                        ));
                    }
                    i += 1;
                }
                proof {
                    assert(digits@.subrange(0, digits@.len() as int) =~= digits@);
                }
                s.append(") is not found in the repository.");
                s
            },
            Error::InvalidAuthHeader => {
                "Invalid value provided for the HTTP Authorization header".to_owned()
            },
            Error::InvalidScheme(m) => {
                let mut s = "The scheme provided (".to_owned();
                s.append(m.as_str());
                s.append(") is not Basic");
                s
            },
            Error::InvalidBase64Value(m) => {
                let mut s = "The value have an invalid base64 encoding: ".to_owned();
                s.append(m.as_str());
                s
            },
            Error::InvalidUtf8Value(m) => {
                let mut s = "Invalid UTF-8 Provided: ".to_owned();
                s.append(m.as_str());
                s
            },
            Error::ReqwestMiddleware(m) => {
                let mut s = "The external validation api call failed ".to_owned();
                s.append(m.as_str());
                s
            },
        }
    }
}

} // verus!
