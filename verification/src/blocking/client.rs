//! Builder configuration of the blocking client: the same pool settings as
//! the async client's builder, behind the blocking surface.

use vstd::prelude::*;

verus! {

/// Configuration of a blocking client's connection pool; it wraps the
/// async builder and forwards every setting to it.
pub struct ClientBuilder(crate::client::ClientBuilder);

impl ClientBuilder {
    /// The maximum number of idle connections kept per host.
    pub closed spec fn spec_max_idle(&self) -> usize {
        self.0.spec_max_idle()
    }

    /// How long an idle connection is kept alive, in milliseconds.
    pub closed spec fn spec_idle_timeout(&self) -> Option<u64> {
        self.0.spec_idle_timeout()
    }

    /// The default configuration: no limit on idle connections, and a
    /// ninety-second idle timeout.
    pub fn new() -> (r: Self)
        ensures
            r.spec_max_idle() == usize::MAX,
            r.spec_idle_timeout() == Some(90000u64),
    {
        ClientBuilder(crate::client::ClientBuilder::new())
    }

    /// Sets the maximum idle connection per host allowed in the pool.
    ///
    /// Default is `usize::MAX` (no limit).
    pub fn pool_max_idle_per_host(&mut self, max_idle: usize) -> (r: &mut Self)
        ensures
            r.spec_max_idle() == max_idle,
            r.spec_idle_timeout() == old(self).spec_idle_timeout(),
            *final(self) == *final(r),
    {
        self.0.pool_max_idle_per_host(max_idle);
        self
    }

    /// Set an optional timeout for idle sockets being kept alive, in
    /// milliseconds.
    ///
    /// Pass `None` to disable the timeout. Default is 90 seconds.
    pub fn pool_idle_timeout(&mut self, val: Option<u64>) -> (r: &mut Self)
        ensures
            r.spec_idle_timeout() == val,
            r.spec_max_idle() == old(self).spec_max_idle(),
            *final(self) == *final(r),
    {
        self.0.pool_idle_timeout(val);
        self
    }

    /// The async builder carrying the same configuration.
    pub fn as_async_builder(&self) -> (r: &crate::client::ClientBuilder)
        ensures
            r.spec_max_idle() == self.spec_max_idle(),
            r.spec_idle_timeout() == self.spec_idle_timeout(),
    {
        &self.0
    }
}

impl Clone for ClientBuilder {
    /// The clone carries the same configuration.
    fn clone(&self) -> (r: Self)
        ensures
            r.spec_max_idle() == self.spec_max_idle(),
            r.spec_idle_timeout() == self.spec_idle_timeout(),
    {
        ClientBuilder(self.0.clone())
    }
}

} // verus!
