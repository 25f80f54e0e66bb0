//! Validation of EOF (EVM Object Format) containers.
//!
//! An EOF container is a versioned, section-based binary envelope around
//! executable code and auxiliary data.  This crate decides whether a byte
//! sequence is a well-formed container: bytes that do not carry the magic
//! prefix are legacy payloads and always accepted, while bytes that do are
//! held to a strict header layout, with a named reason for every rejection.

pub mod hex;
pub mod validator;
