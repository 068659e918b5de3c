//! Proof transport and per-relation engine decisions.
//!
//! A finished proof travels as a pair of byte buffers: the
//! cryptographic payload in one, the wire form of its public inputs in
//! the other.  Nothing inside either buffer points at the other, so a
//! caller has to keep the two together.  Before a proof can be checked
//! the pair is glued back into one byte stream, payload first.
//!
//! Which gate codec and which proving mode apply follow from the
//! identity of the circuit alone; the choices are made here so that
//! the engine-facing shell merely carries them out.

use vstd::prelude::*;
use crate::codec::{parse_wire, serialize_field_values, wire_of_values};

verus! {

/// Identity of the circuit family a key or proof belongs to.
#[derive(Debug, Clone, Copy, PartialEq, Eq, Structural)]
pub enum CircuitFamily {
    /// The Fibonacci-style arithmetic relation.
    Fibonacci,
    /// The SHA-256 fixed-message self-check relation.
    Sha256,
}

impl CircuitFamily {
    /// True for the relation whose key files hold gate kinds the
    /// plain gate codec cannot read; a mismatched choice surfaces as
    /// a parse failure, never as a failed check of a proof.
    pub fn uses_u32_gate_serializer(&self) -> (r: bool)
        ensures
            r == (self is Sha256),
    {
        match self {
            CircuitFamily::Fibonacci => false,
            CircuitFamily::Sha256 => true,
        }
    }

    /// Whether this family proves from a compiled key held on disk.
    /// The Fibonacci circuit never changes shape, so its key is read
    /// anew on each call; the SHA-256 relation is instead rebuilt in
    /// memory every time.
    pub fn loads_proving_key(&self) -> (r: bool)
        ensures
            r == (self is Fibonacci),
    {
        match self {
            CircuitFamily::Fibonacci => true,
            CircuitFamily::Sha256 => false,
        }
    }
}

/// A finished proof, split for transport: the cryptographic payload
/// and the length-prefixed public-input buffer.
pub struct ProofPackage {
    pub proof: Vec<u8>,
    pub inputs: Vec<u8>,
}

/// Packages a proof payload with its public-input values for
/// transport.  The payload is carried unchanged; the values are put
/// into the length-prefixed wire form, which is guaranteed to parse
/// back to exactly the same values.
pub fn encode_proof_package(proof_payload: Vec<u8>, public_inputs: &Vec<u64>) -> (r: ProofPackage)
    ensures
        r.proof@ == proof_payload@,
        r.inputs@ == wire_of_values(public_inputs@),
        parse_wire(r.inputs@) == Some(public_inputs@),
{
    let inputs = serialize_field_values(public_inputs);
    ProofPackage { proof: proof_payload, inputs }
}

/// Glues the transported pair back into the one byte stream the
/// engine parses: proof payload first, then the public-input buffer.
/// A swapped pair yields different bytes and is caught downstream as
/// a shape mismatch.
pub fn combine_proof_bytes(proof: &Vec<u8>, inputs: &Vec<u8>) -> (r: Vec<u8>)
    ensures
        r@ == proof@ + inputs@,
{
    let mut out: Vec<u8> = Vec::new();
    out.extend_from_slice(proof.as_slice());
    out.extend_from_slice(inputs.as_slice());
    proof {
        assert(out@ =~= proof@ + inputs@);
    }
    out
}

} // verus!
