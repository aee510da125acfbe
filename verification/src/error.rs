//! The error type of the client surface.

use crate::method::Method;
use vstd::prelude::*;

verus! {

/// What went wrong with a request before or while it was sent. Errors of
/// the underlying engine are carried by their message; a body handed to a
/// method that forbids one is rejected before anything is sent.
#[derive(Debug)]
pub enum Error {
    /// The request could not be assembled: an invalid URI or part.
    Http(String),
    /// The HTTP engine failed after the request was handed to it.
    Hyper(String),
    /// A body was supplied for a method whose requests may not carry one.
    BodyNotAllowed(Method),
}

impl Error {
    /// A short account of the error, for display to people.
    pub fn message(&self) -> (r: String)
        ensures
            r@ == match *self {
                Error::Http(ref m) => m@,
                Error::Hyper(ref m) => m@,
                Error::BodyNotAllowed(m) => crate::method::spec_method_name(m)
                    + " requests are not allowed to have a body"@,
            },
    {
        match self {
            Error::Http(m) => m.clone(),
            Error::Hyper(m) => m.clone(),
            Error::BodyNotAllowed(m) => join_not_allowed(m.name()),
        }
    }
}

/// Relies on `format!` with `"{} requests are not allowed to have a body"`:
/// the result is the method name followed by that sentence.
#[verifier::external_body]
fn join_not_allowed(name: &str) -> (r: String)
    ensures
        r@ == name@ + " requests are not allowed to have a body"@,
{
    format!("{} requests are not allowed to have a body", name)
}

} // verus!
