//! Nonce-collision detection over blockchain transaction inputs.
//!
//! The engine extracts a canonical r-value fingerprint from each input's raw
//! signature script, accumulates fingerprints across a one-pass stream of
//! blocks, finds exact duplicates, and renders the colliding transactions as a
//! semicolon-delimited report.

pub mod block;
pub mod engine;
pub mod fingerprint;
pub mod hex;
pub mod index;
pub mod record;
pub mod resolve;
pub mod sink;
pub mod spill;
