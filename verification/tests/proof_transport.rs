use mopro::codec::deserialize_inputs;
use mopro::proofs::{combine_proof_bytes, encode_proof_package, CircuitFamily};

#[test]
fn package_carries_payload_unchanged() {
    let payload = vec![9u8, 8, 7, 6];
    let package = encode_proof_package(payload.clone(), &vec![3, 5]);
    assert_eq!(package.proof, payload);
}

#[test]
fn package_inputs_deserialize_to_decimal_strings() {
    let package = encode_proof_package(Vec::new(), &vec![3, 5]);
    assert_eq!(
        deserialize_inputs(package.inputs).unwrap(),
        vec![String::from("3"), String::from("5")]
    );
}

#[test]
fn combine_puts_proof_bytes_first() {
    let combined = combine_proof_bytes(&vec![1u8, 2], &vec![3u8, 4, 5]);
    assert_eq!(combined, vec![1, 2, 3, 4, 5]);
    // Swapped buffers produce different combined bytes.
    let swapped = combine_proof_bytes(&vec![3u8, 4, 5], &vec![1u8, 2]);
    assert_ne!(combined, swapped);
}

#[test]
fn serializer_and_strategy_follow_circuit_identity() {
    assert!(!CircuitFamily::Fibonacci.uses_u32_gate_serializer());
    assert!(CircuitFamily::Sha256.uses_u32_gate_serializer());
    assert!(CircuitFamily::Fibonacci.loads_proving_key());
    assert!(!CircuitFamily::Sha256.loads_proving_key());
}
