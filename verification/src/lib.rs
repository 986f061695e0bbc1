//! Verified core of a key connector: a zero-knowledge escrow that stores one
//! opaque key blob per user, sealed at rest and released only to a caller
//! holding a valid access token for that same user.
//!
//! - [`config`]: the `KC_*` settings, checked into a [`config::Config`].
//! - [`jwt`]: the bearer header and RS256 access token validation.
//! - [`crypto`]: sealing key blobs with AES-256-GCM, bound to the user id.
//! - [`store`]: what the key store writes and reads back.
//! - [`routes`]: the answers of the HTTP endpoints.
//! - [`error`]: request errors with their text and status.
//! - [`codec`], [`text`]: base64, UTF-8 and character helpers.

pub mod codec;
pub mod config;
pub mod crypto;
pub mod error;
pub mod jwt;
pub mod routes;
pub mod store;
pub mod text;
