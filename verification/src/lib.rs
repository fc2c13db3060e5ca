//! Fork-detection core of a light client for a BFT blockchain.
//!
//! Given a block that the primary peer convinced the light client to accept,
//! the detector cross-checks that block against a set of witness peers and
//! classifies every disagreement as a real fork, a faulty witness, or an
//! unreachable witness.

pub mod detector;
pub mod encode;
pub mod hasher;
pub mod laws;
pub mod store;
pub mod types;
