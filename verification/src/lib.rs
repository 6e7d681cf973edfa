//! Core of an encrypted, expiring file-sharing backend.
//!
//! Users register, a sender uploads an already-encrypted blob bound to one
//! recipient, and the recipient retrieves it through a password-protected
//! shared link before it expires.  This crate holds the verified data-access
//! and lifecycle layer: the entity store with its relational invariants, the
//! user repository, the file and link repository with its paginated listings,
//! the expiration reaper, and the access gate.  HTTP transport, credential
//! hashing and serialization are collaborators outside this crate; they hand
//! in plain values (ids, strings, byte buffers, timestamps) and get plain
//! values back.

pub mod dtos;
pub mod error;
pub mod laws;
pub mod like;
pub mod listing;
pub mod model;
pub mod store;
pub mod strutil;
pub mod validate;
