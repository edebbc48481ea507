//! Read path for git pack data streams: the fixed preamble parser, the
//! per-entry variable-length object header codec, a capturing byte source,
//! and the streaming entry decoder that walks a pack from its magic bytes
//! to its trailing checksum. A span-based model of the configuration file
//! reader lives alongside it.

pub mod config;
pub mod error;
pub mod header;
pub mod iter;
pub mod parse;
pub mod source;
mod zlib;
