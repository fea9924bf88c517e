//! Media catalog engine: identity resolution for video and book files,
//! catalog reconciliation against a filesystem snapshot, metadata
//! enrichment planning and merging, and cover selection for archives.
//!
//! All I/O (filesystem walking, the relational store, the metadata
//! provider's HTTP calls, archive reading) lives outside this crate; the
//! library works on plain values handed in by its caller.

pub mod catalog;
pub mod classify;
pub mod cover;
pub mod dtos;
pub mod enrich;
pub mod ident;
pub mod laws;
pub mod models;
pub mod scan;
pub mod service;
pub mod text;
pub mod util;
