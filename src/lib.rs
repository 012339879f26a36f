//! A client library for the Docker / OCI registry HTTP API v2: the parts of
//! it that decide, parse and check, each with a contract.

pub mod errors;
pub mod text;
pub mod mediatypes;
pub mod challenge;
pub mod auth;
pub mod client;
pub mod digest;
pub mod blobs;
pub mod manifest;
pub mod reference;
