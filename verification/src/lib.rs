//! A guest-resident command/resource runtime with a streaming digest engine.
//!
//! The crate provides:
//! - a resource table that stores native values behind monotonically
//!   increasing integer handles ([`resource`]),
//! - a command registry that maps a (package, command) key to a typed
//!   handler and performs argument decoding / result encoding at the
//!   boundary ([`command`], [`proto`]),
//! - preset command sets for archives and raw byte blobs ([`archiver`],
//!   [`blob`]),
//! - a chunked, multi-algorithm incremental digest engine ([`checksum`],
//!   [`bridge`]).

pub mod app;
pub mod archiver;
pub mod blob;
pub mod bridge;
pub mod checksum;
pub mod codec;
pub mod command;
pub mod proto;
pub mod resource;
pub mod setup;
