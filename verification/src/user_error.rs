//! The error value returned by the user-facing request handlers: a numeric
//! code and a message. How it is rendered into a response lives with the
//! transport.

use vstd::prelude::*;
use vstd::string::*;

verus! {

/// A user-operation error: a code and a human-readable message.
pub struct UserOpError {
    pub error_code: i32,
    pub msg: String,
}

impl UserOpError {
    /// A fresh error with the given code and message.
    pub fn new(error_code: i32, msg: &str) -> (e: UserOpError)
        ensures
            e.error_code == error_code,
            e.msg@ == msg@,
    {
        UserOpError { error_code, msg: String::from_str(msg) }
    }

    /// The message shown to the caller.
    pub fn message(&self) -> (m: &str)
        ensures
            m@ == self.msg@,
    {
        self.msg.as_str()
    }

    /// The HTTP status this error maps to: an internal server error.
    pub fn status_code(&self) -> (c: u16)
        ensures
            c == 500,
    {
        500
    }
}

} // verus!
