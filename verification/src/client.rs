//! Assembling requests: builder configuration, the parts of a request
//! while it is being put together, and the body policy applied when it is
//! finalized.

use crate::error::Error;
use crate::headers::{lemma_get_after_insert, spec_get, spec_insert, Headers};
use crate::method::{spec_allows_body, Method};
use crate::shared_body::SharedBody;
use crate::text::{spec_decimal, u64_decimal};
use vstd::prelude::*;

verus! {

/// Configuration of a client's connection pool.
pub struct ClientBuilder {
    max_idle_per_host: usize,
    idle_timeout_millis: Option<u64>,
}

impl ClientBuilder {
    /// The maximum number of idle connections kept per host.
    pub closed spec fn spec_max_idle(&self) -> usize {
        self.max_idle_per_host
    }

    /// How long an idle connection is kept alive, in milliseconds.
    pub closed spec fn spec_idle_timeout(&self) -> Option<u64> {
        self.idle_timeout_millis
    }

    /// The default configuration: no limit on idle connections, and a
    /// ninety-second idle timeout.
    pub fn new() -> (r: Self)
        ensures
            r.spec_max_idle() == usize::MAX,
            r.spec_idle_timeout() == Some(90000u64),
    {
        ClientBuilder { max_idle_per_host: usize::MAX, idle_timeout_millis: Some(90000) }
    }

    /// Sets the maximum idle connection per host allowed in the pool.
    ///
    /// Default is `usize::MAX` (no limit).
    pub fn pool_max_idle_per_host(&mut self, max_idle: usize) -> (r: &mut Self)
        ensures
            r.spec_max_idle() == max_idle,
            r.spec_idle_timeout() == old(self).spec_idle_timeout(),
            *final(self) == *final(r),
    {
        self.max_idle_per_host = max_idle;
        self
    }

    /// Set an optional timeout for idle sockets being kept alive, in
    /// milliseconds.
    ///
    /// Pass `None` to disable the timeout. Default is 90 seconds.
    pub fn pool_idle_timeout(&mut self, val: Option<u64>) -> (r: &mut Self)
        ensures
            r.spec_idle_timeout() == val,
            r.spec_max_idle() == old(self).spec_max_idle(),
            *final(self) == *final(r),
    {
        self.idle_timeout_millis = val;
        self
    }

    /// The maximum number of idle connections kept per host.
    pub fn max_idle(&self) -> (r: usize)
        ensures
            r == self.spec_max_idle(),
    {
        self.max_idle_per_host
    }

    /// How long an idle connection is kept alive, in milliseconds.
    pub fn idle_timeout(&self) -> (r: Option<u64>)
        ensures
            r == self.spec_idle_timeout(),
    {
        self.idle_timeout_millis
    }
}

impl Clone for ClientBuilder {
    /// The clone carries the same configuration.
    fn clone(&self) -> (r: Self)
        ensures
            r.spec_max_idle() == self.spec_max_idle(),
            r.spec_idle_timeout() == self.spec_idle_timeout(),
    {
        ClientBuilder {
            max_idle_per_host: self.max_idle_per_host,
            idle_timeout_millis: self.idle_timeout_millis,
        }
    }
}

/// The parts of a request while it is being put together: owned by one
/// builder until it is finalized, then consumed.
pub struct RequestDetails {
    pub method: Method,
    pub uri: hyper::Uri,
    pub headers: Headers,
    pub body: Option<SharedBody>,
}

/// A finalized request, ready to be handed to the HTTP engine.
pub struct Request {
    pub method: Method,
    pub uri: hyper::Uri,
    pub headers: Headers,
    pub body: SharedBody,
}

/// The bytes a finalized request will carry: those of the body, if one was
/// supplied.
pub open spec fn spec_body_bytes(body: Option<SharedBody>) -> Seq<u8> {
    match body {
        Some(b) => b@,
        None => Seq::empty(),
    }
}

impl RequestDetails {
    /// Fresh details: no headers, no body.
    pub fn new(method: Method, uri: hyper::Uri) -> (r: Self)
        ensures
            r.method == method,
            r.uri == uri,
            r.headers@ == Seq::<(Seq<char>, Seq<u8>)>::empty(),
            r.body is None,
    {
        RequestDetails { method, uri, headers: Headers::new(), body: None }
    }

    /// Set the request body.
    pub fn set_body(&mut self, body: SharedBody)
        ensures
            final(self).body == Some(body),
            final(self).method == old(self).method,
            final(self).uri == old(self).uri,
            final(self).headers == old(self).headers,
    {
        self.body = Some(body);
    }

    /// Replace the request headers wholesale.
    pub fn set_headers(&mut self, headers: Headers)
        ensures
            final(self).headers == headers,
            final(self).method == old(self).method,
            final(self).uri == old(self).uri,
            final(self).body == old(self).body,
    {
        self.headers = headers;
    }

    /// Set a single header, replacing any value it had.
    pub fn insert_header(&mut self, name: String, value: Vec<u8>)
        ensures
            final(self).headers@ == spec_insert(old(self).headers@, name@, value@),
            final(self).method == old(self).method,
            final(self).uri == old(self).uri,
            final(self).body == old(self).body,
    {
        self.headers.insert(name, value);
    }

    /// Finalize the request. Methods whose requests may not carry a body
    /// reject one here; for every other method a missing body becomes the
    /// empty body, and the declared content length is set to the body's
    /// exact length, since the body is handed over in one shot and never
    /// chunked.
    pub fn into_request(self) -> (r: Result<Request, Error>)
        ensures
            (!spec_allows_body(self.method) && self.body is Some) ==> (r matches Err(
                Error::BodyNotAllowed(m),
            ) && m == self.method),
            spec_allows_body(self.method) ==> (r matches Ok(req) && req.method == self.method
                && req.uri == self.uri && req.body@ == spec_body_bytes(self.body) && req.headers@
                == spec_insert(
                self.headers@,
                "content-length"@,
                spec_decimal(spec_body_bytes(self.body).len()),
            )),
            (!spec_allows_body(self.method) && self.body is None) ==> (r matches Ok(req)
                && req.method == self.method && req.uri == self.uri && req.headers@
                == self.headers@ && req.body@ == Seq::<u8>::empty()),
    {
        let RequestDetails { method, uri, mut headers, body } = self;
        if method.allows_body() {
            let body = match body {
                Some(b) => b,
                None => SharedBody::empty(),
            };
            let n = body.len();
            headers.insert("content-length".to_owned(), u64_decimal(n as u64));
            Ok(Request { method, uri, headers, body })
        } else if body.is_some() {
            Err(Error::BodyNotAllowed(method))
        } else {
            Ok(Request { method, uri, headers, body: SharedBody::empty() })
        }
    }
}

/// Finalizing a request whose method admits a body declares as content
/// length exactly the length of the body it carries, for any length,
/// zero included.
pub proof fn lemma_content_length_round_trip(details: RequestDetails, r: Result<Request, Error>)
    requires
        spec_allows_body(details.method),
        call_ensures(RequestDetails::into_request, (details,), r),
    ensures
        r matches Ok(req) && spec_get(req.headers@, "content-length"@) == Some(
            spec_decimal(spec_body_bytes(details.body).len()),
        ),
{
    lemma_get_after_insert(
        details.headers@,
        "content-length"@,
        spec_decimal(spec_body_bytes(details.body).len()),
    );
}

/// Finalizing a request with no body, under a method that admits one,
/// yields the empty body and a declared content length of zero.
pub proof fn lemma_absent_body_normalized(details: RequestDetails, r: Result<Request, Error>)
    requires
        spec_allows_body(details.method),
        details.body is None,
        call_ensures(RequestDetails::into_request, (details,), r),
    ensures
        r matches Ok(req) && req.body@ == Seq::<u8>::empty() && spec_get(
            req.headers@,
            "content-length"@,
        ) == Some(seq![48u8]),
{
    lemma_content_length_round_trip(details, r);
}

} // verus!
