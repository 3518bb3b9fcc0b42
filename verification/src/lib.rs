//! Resilient request core for a Linear-style issue tracker CLI.
//!
//! The crate centers on the layer that turns a human-supplied identifier
//! (a key, a name, an email, or the literal `me`) into the service's
//! canonical identifier, retries transient failures with jittered backoff,
//! walks cursor-based result pages into flat collections, and caches
//! slow-changing reference data from complete, unfiltered fetches only.
//! Network, clock, and keyring access stay outside; the decision logic in
//! here is verified.

pub mod api;
pub mod cache;
pub mod commands;
pub mod error;
pub mod json;
pub mod keyring_store;
pub mod pagination;
pub mod priority;
pub mod retry;
pub mod transport;
pub mod text;
