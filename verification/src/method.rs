//! Request methods and the body policy attached to them.

use vstd::prelude::*;

verus! {

/// An HTTP request method.
#[derive(Clone, Copy, PartialEq, Eq, Structural, Debug)]
pub enum Method {
    Get,
    Head,
    Post,
    Patch,
    Put,
    Delete,
}

/// Whether requests with this method may carry a body. `GET`, `HEAD` and
/// `DELETE` requests may not; every other method's requests may.
pub open spec fn spec_allows_body(m: Method) -> bool {
    match m {
        Method::Get | Method::Head | Method::Delete => false,
        _ => true,
    }
}

impl Method {
    /// Whether requests with this method may carry a body.
    pub fn allows_body(&self) -> (r: bool)
        ensures
            r == spec_allows_body(*self),
    {
        match self {
            Method::Get | Method::Head | Method::Delete => false,
            _ => true,
        }
    }

    /// The method's name, as written on the wire.
    pub fn name(&self) -> (r: &'static str)
        ensures
            r@ == spec_method_name(*self),
    {
        match self {
            Method::Get => "GET",
            Method::Head => "HEAD",
            Method::Post => "POST",
            Method::Patch => "PATCH",
            Method::Put => "PUT",
            Method::Delete => "DELETE",
        }
    }
}

/// The method's name, as written on the wire.
pub open spec fn spec_method_name(m: Method) -> Seq<char> {
    match m {
        Method::Get => "GET"@,
        Method::Head => "HEAD"@,
        Method::Post => "POST"@,
        Method::Patch => "PATCH"@,
        Method::Put => "PUT"@,
        Method::Delete => "DELETE"@,
    }
}

} // verus!
