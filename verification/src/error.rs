//! The error value every fallible operation of this crate returns.
//!
//! An error carries a human-readable message and an HTTP-like status code
//! (403 authorization, 404 not found, 400 validation, 422 unforwardable,
//! 500 persistence).

use vstd::prelude::*;

verus! {

/// An operation failure: a message for the client and a status code that
/// classifies it. `cause` keeps the text of an underlying failure, if any.
#[derive(Debug)]
pub struct Error {
    pub message: String,
    pub status_code: u16,
    pub cause: Option<String>,
}

impl Error {
    /// A fresh error with no underlying cause.
    pub fn new(message: String, status_code: u16) -> (r: Error)
        ensures
            r.message == message,
            r.status_code == status_code,
            r.cause is None,
    {
        Error { message, status_code, cause: None }
    }

    /// An error that records the text of the failure it wraps.
    pub fn wrap(message: String, status_code: u16, cause: String) -> (r: Error)
        ensures
            r.message == message,
            r.status_code == status_code,
            r.cause == Some(cause),
    {
        Error { message, status_code, cause: Some(cause) }
    }

    /// The error as one line of text: the message, then the cause if any.
    pub fn describe(&self) -> (r: String)
        ensures
            match self.cause {
                Some(cause) => r@ == self.message@ + ": "@ + cause@,
                None => r@ == self.message@,
            },
    {
        match &self.cause {
            Some(cause) => {
                let mut out = self.message.clone();
                out.append(": ");
                out.append(cause.as_str());
                out
            },
            None => self.message.clone(),
        }
    }
}

} // verus!
