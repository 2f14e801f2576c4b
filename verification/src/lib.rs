//! Verified core of a two-player heist game played as validated state
//! transitions: commit-reveal seed derivation, deterministic map generation,
//! fog-of-war, path and hazard validation, hash-chained state digests, and
//! the turn protocol that ties them together, plus the proof-blob framing
//! and Groth16 plumbing of the companion verifier contract.

pub mod bits;
pub mod crypto;
pub mod engine;
pub mod groth16;
pub mod laws;
pub mod mapgen;
pub mod proofblob;
pub mod protocol;
pub mod turns;
pub mod types;
pub mod views;
pub mod vk;
