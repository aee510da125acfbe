//! The blocking side of the client: a pull-based reader over a pushed
//! response-body stream, and the builder configuration of the blocking
//! client. The background task that pumps the stream runs with the caller;
//! every decision it takes per stream item is made here.

pub mod body;
pub mod client;

pub use self::body::{Body, BodyError, DriverAction};
pub use self::client::ClientBuilder;
