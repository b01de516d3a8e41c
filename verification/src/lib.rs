//! Core of a comment-moderation backend: visitors post comments, an
//! administrator approves or edits them, and an original poster can amend
//! their own comment by proving possession of a per-comment capability
//! token issued at creation time.
//!
//! The crate holds the authorization and mutation logic: the capability
//! codec, the constant-time matcher, the two authenticators and the
//! authorization decision built from them, the field-gated patch builder,
//! the comment repository, and the visibility filter applied at list time.
//! HTTP transport, JSON framing and durable storage live outside, and hand
//! this crate plain values.

pub mod auth;
pub mod codec;
pub mod errors;
pub mod handlers;
pub mod laws;
pub mod matcher;
pub mod patch;
pub mod repo;
pub mod routes;
