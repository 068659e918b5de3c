//! Proof and public-input lifecycle for two fixed plonky2 circuit
//! families: a Fibonacci-style arithmetic relation and a SHA-256
//! relation that checks one hard-wired hashing claim.
//!
//! The cryptographic engine (circuit building, proving, verifying) is
//! the `plonky2` crate, driven by an unverified shell around this
//! library; everything the shell must get right by decision rather
//! than by engine call lives here, verified: the decimal field-element
//! codec, the length-prefixed public-input wire format, witness
//! selection from named inputs, proof-buffer pairing, and the
//! per-relation serializer and strategy choices.

pub mod codec;
pub mod errors;
pub mod field;
pub mod inputs;
pub mod proofs;
pub mod sha256;
