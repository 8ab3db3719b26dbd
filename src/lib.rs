//! Verifiable dataset splitting and attestation-gated bounty escrow.
//!
//! `merkle` commits to ordered sequences of row hashes, `shuffle` draws a
//! seeded Fisher–Yates permutation, and `kernel` ties them together into the
//! split operation whose outputs are published. `payload` decodes attested
//! results, `escrow` holds the bounty / submission state machine, and `zkml`
//! records verified splits.

pub mod digest;
pub mod merkle;
pub mod shuffle;
pub mod kernel;
pub mod payload;
pub mod escrow;
pub mod zkml;
