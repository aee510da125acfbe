//! A small HTTP client library: connectors that turn URIs into transport
//! connections, a shareable immutable request body, request assembly with a
//! body policy per method, and a blocking adapter over a streamed response
//! body.

pub mod blocking;
pub mod client;
pub mod connector;
pub mod error;
pub mod headers;
pub mod ipv6;
pub mod method;
pub mod shared_body;
pub mod text;

pub use self::client::{ClientBuilder, Request, RequestDetails};
pub use self::connector::{ConnectError, ConnectPlan, HttpConnector, HttpsConnector};
pub use self::error::Error;
pub use self::headers::{HeaderField, Headers};
pub use self::method::Method;
pub use self::shared_body::{SharedBody, SharedBuf};
