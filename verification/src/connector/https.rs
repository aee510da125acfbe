//! The TLS-enforcing connector: decides, before any network activity,
//! whether a URI may be connected to and whether the connection must be
//! wrapped in TLS. The TLS session itself is established by the caller.

use crate::connector::http::ConnectError;
use crate::text::str_eq;
use vstd::prelude::*;

verus! {

/// Whether the scheme is `https`.
pub open spec fn spec_is_https(scheme: Option<Seq<char>>) -> bool {
    match scheme {
        Some(s) => s == "https"@,
        None => false,
    }
}

/// Decide whether a URI with this scheme may be connected to, and whether
/// the connection is to be wrapped in TLS. With enforcement on, anything
/// but `https` fails here, before any connection attempt; with enforcement
/// off, a non-`https` URI falls through to a plain connection.
pub fn plan_tls(scheme: Option<&str>, force_tls: bool) -> (r: Result<bool, ConnectError>)
    ensures
        spec_is_https(match scheme {
            Some(s) => Some(s@),
            None => None,
        }) ==> (r matches Ok(tls) && tls),
        (!spec_is_https(match scheme {
            Some(s) => Some(s@),
            None => None,
        }) && force_tls) ==> (r matches Err(e) && e.spec_msg()
            == "invalid URI: expected `https` scheme"@ && e.spec_cause() is None
            && !e.spec_timed_out()),
        (!spec_is_https(match scheme {
            Some(s) => Some(s@),
            None => None,
        }) && !force_tls) ==> (r matches Ok(tls) && !tls),
{
    let is_https = match scheme {
        Some(s) => str_eq(s, "https"),
        None => false,
    };
    if !is_https && force_tls {
        return Err(ConnectError::new("invalid URI: expected `https` scheme"));
    }
    Ok(is_https)
}

/// A connector that wraps plain connections in TLS. By default only
/// `https` URIs are accepted; [`HttpsConnector::allow_http_scheme`] lets
/// plain `http` URIs through unwrapped. The TLS session factory itself
/// lives with the caller, keyed by the host that [`super::http::get_host`]
/// extracts.
pub struct HttpsConnector {
    force_tls: bool,
    connect_timeout: Option<u64>,
}

impl HttpsConnector {
    /// Whether only `https` URIs are accepted.
    pub closed spec fn spec_force_tls(&self) -> bool {
        self.force_tls
    }

    /// The configured connect timeout, in milliseconds.
    pub closed spec fn spec_connect_timeout(&self) -> Option<u64> {
        self.connect_timeout
    }

    /// A connector that accepts only `https` URIs and has no connect
    /// timeout.
    pub fn new() -> (r: Self)
        ensures
            r.spec_force_tls(),
            r.spec_connect_timeout() is None,
    {
        HttpsConnector { force_tls: true, connect_timeout: None }
    }

    /// If called, the connector will allow URIs with the `http` scheme.
    /// Otherwise only URIs with the `https` scheme are allowed.
    pub fn allow_http_scheme(self) -> (r: Self)
        ensures
            !r.spec_force_tls(),
            r.spec_connect_timeout() == self.spec_connect_timeout(),
    {
        HttpsConnector { force_tls: false, connect_timeout: self.connect_timeout }
    }

    /// Set the connect timeout, in milliseconds. Default is no timeout.
    pub fn connect_timeout(self, timeout: Option<u64>) -> (r: Self)
        ensures
            r.spec_connect_timeout() == timeout,
            r.spec_force_tls() == self.spec_force_tls(),
    {
        HttpsConnector { force_tls: self.force_tls, connect_timeout: timeout }
    }

    /// Whether only `https` URIs are accepted.
    pub fn is_tls_forced(&self) -> (r: bool)
        ensures
            r == self.spec_force_tls(),
    {
        self.force_tls
    }

    /// The configured connect timeout, in milliseconds.
    pub fn timeout_millis(&self) -> (r: Option<u64>)
        ensures
            r == self.spec_connect_timeout(),
    {
        self.connect_timeout
    }
}

impl Clone for HttpsConnector {
    /// The clone carries the same configuration.
    fn clone(&self) -> (r: Self)
        ensures
            r.spec_force_tls() == self.spec_force_tls(),
            r.spec_connect_timeout() == self.spec_connect_timeout(),
    {
        HttpsConnector { force_tls: self.force_tls, connect_timeout: self.connect_timeout }
    }
}

} // verus!
