//! Core of a Bitcoin wallet backed by a distributed signing service.
//!
//! The crate derives a single-signature address from a named signing
//! identity, selects unspent outputs to cover a spend, builds the raw
//! transaction and its per-input signature digests, assembles the final
//! transaction from the returned signatures (all-or-nothing), and computes
//! the transaction id for broadcast.  All network and signing round trips
//! are performed by the surrounding application; this crate holds the
//! verified logic between them.

pub mod address;
pub mod broadcast;
pub mod builder;
pub mod cache;
pub mod config;
pub mod codec;
pub mod fees;
pub mod hashes;
pub mod select;
pub mod spend;
pub mod types;
pub mod vendors;
