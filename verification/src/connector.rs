//! Connectors turn a URI into the parameters of an open transport
//! connection: a validated scheme, an extracted host, and a resolved port.
//! The decisions live here, fully verified; opening sockets and shaking
//! hands over TLS is the caller's business.

pub mod http;
pub mod https;
pub mod uri_ext;

pub use self::http::{ConnectError, ConnectPlan, HttpConnector};
pub use self::https::HttpsConnector;
