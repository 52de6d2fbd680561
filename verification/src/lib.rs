//! An S3-compatible gateway core: request demultiplexing, S3 semantics,
//! multipart upload management, and a content-addressed in-memory store,
//! with machine-checked contracts.

pub mod assoc;
pub mod auth;
pub mod box_props;
pub mod chunked;
pub mod config;
pub mod error;
pub mod handlers;
pub mod hashing;
pub mod http;
pub mod httpdate;
pub mod metadata;
pub mod multipart_manager;
pub mod ids;
pub mod laws;
pub mod range;
pub mod registry;
pub mod routes;
pub mod state;
pub mod store;
pub mod text;
pub mod timefmt;
pub mod xml;

use vstd::prelude::*;

verus! {

} // verus!
