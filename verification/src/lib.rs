//! Core of a personal-aggregation command line tool: a time-boxed,
//! filesystem-backed cache keyed by logical names, and a push-based
//! extraction framework that turns markup documents into typed records.
//!
//! All I/O stays outside this crate: the cache works on an in-memory model
//! of its directory and hands back the disk actions to perform, and the
//! extraction framework takes the document text as a value.

pub mod cli;
pub mod config;
pub mod directory;
pub mod events;
pub mod fs_cache;
pub mod handlers;
pub mod key;
pub mod markup;
pub mod news;
pub mod records;
pub mod resume;
pub mod sources;
pub mod store;
pub mod text;
pub mod timestamp;
