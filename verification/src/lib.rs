//! Reconciles a manifest of desired mod files against the release files of a
//! local directory, with a remote catalog as the source of file identifiers.
//!
//! Nothing in this crate touches the file system or the network. The caller
//! lists directories, fetches catalog pages and transfers files; the crate
//! decides what has to happen and proves what those decisions guarantee.

pub mod error;

pub mod text;

pub mod credential;

pub mod heuristics;

pub mod scanner;

pub mod curse_files;

pub mod engine;

pub mod laws;

pub mod sync;

pub mod session;
