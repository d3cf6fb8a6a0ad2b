//! A verified core for a small reverse proxy: a backend registry kept fresh by
//! refresh messages, a discovery-response parser, request-rewrite planning for
//! the inbound and outbound listeners, and the upstream-response relay.

pub mod backend;
pub mod discovery;
pub mod inbound;
pub mod outbound;
pub mod registry;
pub mod relay;
pub mod urls;

pub use backend::Backend;
pub use registry::{Mgr, Service};
