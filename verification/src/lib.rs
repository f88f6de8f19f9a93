//! An anonymous file drop: the rules that name stored files, build their
//! public addresses, pick the upload out of a form and decide what expires.
//!
//! Everything here computes on plain values. Reading requests, touching the
//! disk and waiting on timers belong to the program around this library.

pub mod encoding;
pub mod error;
pub mod ident;
pub mod ingest;
pub mod laws;
pub mod path;
pub mod purge;
pub mod retrieve;
pub mod text;
pub mod url;
