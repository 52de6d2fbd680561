//! Operation handlers: service, bucket, object and multipart semantics.

pub mod bucket;
pub mod multipart;
pub mod object;
pub mod service;
