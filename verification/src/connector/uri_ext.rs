//! Trusted declarations for `hyper::Uri`, the parsed URI type of the `http`
//! crate. The type is opaque here; the wrappers below hand its components
//! over as plain values.

use vstd::prelude::*;

verus! {

#[verifier::external_type_specification]
#[verifier::external_body]
pub struct ExUri(hyper::Uri);

/// Relies on `hyper::Uri::scheme_str`, which returns the URI's scheme, or
/// `None` when the URI has none; `http` and `https` always come back in
/// lowercase, however the URI spelled them.
#[verifier::external_body]
pub(crate) fn uri_scheme_string(uri: &hyper::Uri) -> Option<String> {
    uri.scheme_str().map(|s| s.to_owned())
}

/// Relies on `hyper::Uri::host`, which returns the host part of the URI's
/// authority, brackets included for bracketed literals, or `None` when the
/// URI has no authority.
#[verifier::external_body]
pub(crate) fn uri_host_string(uri: &hyper::Uri) -> Option<String> {
    uri.host().map(|h| h.to_owned())
}

/// Relies on `hyper::Uri::port_u16`, which returns the port written in the
/// URI, or `None` when it has none.
#[verifier::external_body]
pub(crate) fn uri_port(uri: &hyper::Uri) -> Option<u16> {
    uri.port_u16()
}

} // verus!
