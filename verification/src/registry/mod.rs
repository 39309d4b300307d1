//! The client of an image registry: tokens, manifests and blobs.

pub mod auth;
pub mod client;
pub mod error;
pub mod manifest;
