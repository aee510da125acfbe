//! The plain-TCP connector: scheme validation, host extraction, and port
//! resolution for `http` URIs, plus the error type every connector uses.

use crate::connector::uri_ext::{uri_host_string, uri_port, uri_scheme_string};
use crate::ipv6::{is_ipv6_addr, is_ipv6_literal};
use crate::text::str_chars;
use crate::text::str_eq;
use vstd::prelude::*;
use vstd::slice::slice_subrange;
use vstd::string::StrSliceExecFns;

verus! {

pub const DEFAULT_HTTP_PORT: u16 = 80;

pub const DEFAULT_HTTPS_PORT: u16 = 443;

/// An error from establishing a connection: a fixed message, an optional
/// underlying cause, and whether the attempt ran out of time.
#[derive(Debug)]
pub struct ConnectError {
    msg: &'static str,
    cause: Option<String>,
    timed_out: bool,
}

impl ConnectError {
    /// The error's own message.
    pub closed spec fn spec_msg(&self) -> Seq<char> {
        self.msg@
    }

    /// The underlying cause, if one was recorded.
    pub closed spec fn spec_cause(&self) -> Option<Seq<char>> {
        match self.cause {
            Some(c) => Some(c@),
            None => None,
        }
    }

    /// Whether this error stands for a connect attempt that timed out.
    pub closed spec fn spec_timed_out(&self) -> bool {
        self.timed_out
    }

    /// An error with the given message and no cause.
    pub fn new(msg: &'static str) -> (r: Self)
        ensures
            r.spec_msg() == msg@,
            r.spec_cause() is None,
            !r.spec_timed_out(),
    {
        ConnectError { msg, cause: None, timed_out: false }
    }

    /// The same error with the given cause recorded.
    pub fn cause(self, cause: String) -> (r: Self)
        ensures
            r.spec_msg() == self.spec_msg(),
            r.spec_cause() == Some(cause@),
            r.spec_timed_out() == self.spec_timed_out(),
    {
        ConnectError { msg: self.msg, cause: Some(cause), timed_out: self.timed_out }
    }

    /// The error reported when the transport could not be opened in time;
    /// it is the one error with `spec_timed_out()` set.
    pub fn timeout_error() -> (r: Self)
        ensures
            r.spec_msg() == "I/O error"@,
            r.spec_cause() == Some("connection timed out"@),
            r.spec_timed_out(),
    {
        ConnectError {
            msg: "I/O error",
            cause: Some("connection timed out".to_owned()),
            timed_out: true,
        }
    }

    /// The error reported for any other failure to open the transport.
    pub fn io_error(cause: String) -> (r: Self)
        ensures
            r.spec_msg() == "I/O error"@,
            r.spec_cause() == Some(cause@),
            !r.spec_timed_out(),
    {
        ConnectError { msg: "I/O error", cause: Some(cause), timed_out: false }
    }

    /// Whether this error stands for a timed-out connect attempt.
    pub fn is_timeout(&self) -> (r: bool)
        ensures
            r == self.spec_timed_out(),
    {
        self.timed_out
    }

    /// The message with the cause appended, for display to people.
    pub fn message(&self) -> (r: String)
        ensures
            r@ == match self.spec_cause() {
                None => self.spec_msg(),
                Some(c) => self.spec_msg() + ": "@ + c,
            },
    {
        match &self.cause {
            None => self.msg.to_owned(),
            Some(c) => join_msg(self.msg, c.as_str()),
        }
    }
}

/// Relies on `format!` with `"{}: {}"`: the result is the first string, a
/// colon and a space, then the second.
#[verifier::external_body]
fn join_msg(msg: &str, cause: &str) -> (r: String)
    ensures
        r@ == msg@ + ": "@ + cause@,
{
    format!("{}: {}", msg, cause)
}

/// What host normalization yields: the brackets of an IPv6 literal are
/// stripped; any other host, a non-IPv6 bracketed one included, stays as it
/// is.
pub open spec fn spec_normalize_host(s: Seq<char>) -> Seq<char> {
    if s.len() >= 2 && s[0] == '[' && s.last() == ']' && is_ipv6_literal(
        s.subrange(1, s.len() - 1),
    ) {
        s.subrange(1, s.len() - 1)
    } else {
        s
    }
}

/// Strip the brackets of a bracketed IPv6 host literal; every other host,
/// a bracketed non-IPv6 one included, is returned unchanged.
pub fn normalize_host(host: &str) -> (r: String)
    ensures
        r@ == spec_normalize_host(host@),
{
    let chars = str_chars(host);
    let n = chars.len();
    if n >= 2 && chars[0] == '[' && chars[n - 1] == ']' {
        let interior = slice_subrange(chars.as_slice(), 1, n - 1);
        proof {
            assert(interior@ =~= host@.subrange(1, host@.len() - 1));
        }
        if is_ipv6_addr(interior) {
            let inner = host.substring_char(1, n - 1);
            return inner.to_owned();
        }
    }
    host.to_owned()
}

/// The host of `uri`, with IPv6 brackets stripped, or an error when the URI
/// has none.
pub fn get_host(uri: &hyper::Uri) -> (r: Result<String, ConnectError>)
    ensures
        (r matches Err(e) ==> e.spec_msg() == "invalid URI: missing host"@ && e.spec_cause()
            is None),
{
    match uri_host_string(uri) {
        None => Err(ConnectError::new("invalid URI: missing host")),
        Some(h) => Ok(normalize_host(h.as_str())),
    }
}

/// Where a connector should open its transport connection.
#[derive(Debug)]
pub struct ConnectPlan {
    pub host: String,
    pub port: u16,
}

/// Whether the scheme admits a plain connection: `http` always, `https`
/// only when allowed.
pub open spec fn spec_scheme_allowed(s: Seq<char>, allow_https: bool) -> bool {
    s == "http"@ || (allow_https && s == "https"@)
}

/// The port to connect to: the one written in the URI, else the scheme's
/// default.
pub open spec fn spec_resolved_port(scheme: Seq<char>, port: Option<u16>) -> u16 {
    match port {
        Some(p) => p,
        None => if scheme == "http"@ {
            DEFAULT_HTTP_PORT
        } else {
            DEFAULT_HTTPS_PORT
        },
    }
}

/// Decide where to connect, from the URI's parts: the scheme must be
/// `http`, or `https` where allowed; the host must be present and is
/// normalized; the port falls back to the scheme's default. Errors are
/// reported in this order, before any network activity.
pub fn plan_connect(
    scheme: Option<&str>,
    host: Option<&str>,
    port: Option<u16>,
    allow_https: bool,
) -> (r: Result<ConnectPlan, ConnectError>)
    ensures
        scheme is None ==> (r matches Err(e) && e.spec_msg() == "invalid URI: missing scheme"@),
        scheme matches Some(s) ==> !spec_scheme_allowed(s@, allow_https) ==> (r matches Err(e)
            && e.spec_msg() == (if allow_https {
            "invalid URI: expected `http` or `https` scheme"@
        } else {
            "invalid URI: expected `http` scheme"@
        })),
        scheme matches Some(s) ==> spec_scheme_allowed(s@, allow_https) && host is None ==> (
        r matches Err(e) && e.spec_msg() == "invalid URI: missing host"@),
        match (scheme, host) {
            (Some(s), Some(h)) => spec_scheme_allowed(s@, allow_https) ==> (r matches Ok(p)
                && p.host@ == spec_normalize_host(h@) && p.port == spec_resolved_port(s@, port)),
            _ => true,
        },
        r matches Err(e) ==> e.spec_cause() is None && !e.spec_timed_out(),
{
    let scheme_str = match scheme {
        None => {
            return Err(ConnectError::new("invalid URI: missing scheme"));
        },
        Some(s) => s,
    };
    let is_http = str_eq(scheme_str, "http");
    let is_https = str_eq(scheme_str, "https");
    if !(is_http || (allow_https && is_https)) {
        return Err(
            ConnectError::new(
                if allow_https {
                    "invalid URI: expected `http` or `https` scheme"
                } else {
                    "invalid URI: expected `http` scheme"
                },
            ),
        );
    }
    let host_str = match host {
        None => {
            return Err(ConnectError::new("invalid URI: missing host"));
        },
        Some(h) => h,
    };
    let port_num = match port {
        Some(p) => p,
        None => if is_http {
            DEFAULT_HTTP_PORT
        } else {
            DEFAULT_HTTPS_PORT
        },
    };
    Ok(ConnectPlan { host: normalize_host(host_str), port: port_num })
}

/// The validated connect parameters for `uri`. The caller opens the
/// transport connection; everything decided before that happens here, with
/// no network activity.
pub fn connect_params(uri: &hyper::Uri, allow_https: bool) -> (r: Result<ConnectPlan, ConnectError>)
    ensures
        r matches Err(e) ==> e.spec_cause() is None && !e.spec_timed_out(),
{
    let scheme = uri_scheme_string(uri);
    let host = uri_host_string(uri);
    let port = uri_port(uri);
    let scheme_ref = match &scheme {
        Some(s) => Some(s.as_str()),
        None => None,
    };
    let host_ref = match &host {
        Some(h) => Some(h.as_str()),
        None => None,
    };
    plan_connect(scheme_ref, host_ref, port, allow_https)
}

/// A plain connector: it reaches hosts over `http`, with an optional limit
/// on how long opening the transport may take.
pub struct HttpConnector {
    connect_timeout: Option<u64>,
}

impl HttpConnector {
    /// The configured connect timeout, in milliseconds.
    pub closed spec fn spec_connect_timeout(&self) -> Option<u64> {
        self.connect_timeout
    }

    /// A connector with no connect timeout.
    pub fn new() -> (r: Self)
        ensures
            r.spec_connect_timeout() is None,
    {
        HttpConnector { connect_timeout: None }
    }

    /// Set the connect timeout, in milliseconds. Default is no timeout.
    pub fn connect_timeout(self, timeout: Option<u64>) -> (r: Self)
        ensures
            r.spec_connect_timeout() == timeout,
    {
        HttpConnector { connect_timeout: timeout }
    }

    /// The configured connect timeout, in milliseconds.
    pub fn timeout_millis(&self) -> (r: Option<u64>)
        ensures
            r == self.spec_connect_timeout(),
    {
        self.connect_timeout
    }
}

impl Clone for HttpConnector {
    /// The clone carries the same configuration.
    fn clone(&self) -> (r: Self)
        ensures
            r.spec_connect_timeout() == self.spec_connect_timeout(),
    {
        HttpConnector { connect_timeout: self.connect_timeout }
    }
}

} // verus!
