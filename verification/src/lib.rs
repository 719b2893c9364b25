//! Inclusion proofs that bind the Keccak-256 digest of a blob to the data root
//! of the block that published it.
//!
//! The crate holds the row-span arithmetic, the construction of the proof
//! input, the deterministic verifier that a zero-knowledge guest runs on that
//! input, the header field tree, and the job state machine of the proof
//! service.

pub mod blob;
pub mod bytes;
pub mod error;
pub mod guest;
pub mod header;
pub mod header_tree;
pub mod input;
pub mod merkle;
pub mod nmt;
pub mod service;
pub mod span;
pub mod zkproofs;
