//! An HTTP edge: forwards requests under a path prefix to an upstream API and
//! serves a bundled set of static files for every other path.
//!
//! The library holds the decisions: which headers travel, where a request goes,
//! what the client is told. The network and the listener are the caller's.
pub mod assets;
pub mod edge;
pub mod headers;
pub mod laws;
pub mod proxy;
pub mod response;
