//! An in-process HTTP mock server core: request matching, mock selection,
//! and wire-level response serialization, with the state kept per server so
//! that concurrent tests can each use an isolated instance.

pub mod matcher;
pub mod mock;
pub mod request;
pub mod server;
pub mod wire;
