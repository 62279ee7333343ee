//! A webhook adapter that records a file-sync content hash as an annotation on
//! allowlisted config maps, writing only when the hash has changed.
pub mod allowlist;
pub mod handler;
pub mod headers;
pub mod order;
pub mod resource_ref;
