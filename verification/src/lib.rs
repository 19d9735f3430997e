//! Session layer for a multi-service HTTP API platform: endpoint and
//! microversion discovery, cached per service, behind one request pipeline.
//!
//! The library decides and never waits: whatever needs the network comes back
//! to the caller as a request to act, and its outcome is handed in again.

pub mod auth;
pub mod cache;
pub mod error;
pub mod protocol;
pub mod services;
pub mod session;
pub mod sync;
pub mod url;
pub mod version;

pub use error::{Error, ErrorKind};
pub use url::Url;
pub use version::ApiVersion;
