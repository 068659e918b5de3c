use mopro::sha256::{
    bytes_to_bits, expected_digest_bits, sha256_fixed_message, sha256_witness_plan,
};

#[test]
fn fixed_message_shape() {
    let msg = sha256_fixed_message();
    assert_eq!(msg.len(), 128);
    for i in 0..127 {
        assert_eq!(msg[i], i as u8);
    }
    assert_eq!(msg[127], 0);
}

#[test]
fn bits_are_most_significant_first() {
    let bits = bytes_to_bits(&vec![0x01, 0x7E, 0x80]);
    assert_eq!(bits.len(), 24);
    assert_eq!(
        &bits[0..8],
        &[false, false, false, false, false, false, false, true]
    );
    assert_eq!(&bits[8..16], &[false, true, true, true, true, true, true, false]);
    assert_eq!(
        &bits[16..24],
        &[true, false, false, false, false, false, false, false]
    );
}

#[test]
fn digest_table_is_the_digest_of_the_fixed_message() {
    // The 256 constrained digest bits, packed most significant bit
    // first, are exactly this digest of the fixed 128-byte message.
    let expected_digest: [u8; 32] = [
        60, 94, 163, 233, 40, 249, 54, 67, 230, 245, 112, 86, 153, 22, 186, 159, 113, 86, 14, 112,
        132, 65, 56, 85, 180, 160, 45, 215, 93, 56, 62, 2,
    ];
    let bits = expected_digest_bits();
    assert_eq!(bits.len(), 256);
    let mut packed = [0u8; 32];
    for (i, bit) in bits.iter().enumerate() {
        if *bit {
            packed[i / 8] |= 1 << (7 - (i % 8));
        }
    }
    assert_eq!(packed, expected_digest);
}

#[test]
fn witness_plan_is_deterministic() {
    let first = sha256_witness_plan();
    let second = sha256_witness_plan();
    assert_eq!(first.message_bits, second.message_bits);
    assert_eq!(first.digest_bits, second.digest_bits);
    assert_eq!(first.message_bits.len(), 1024);
    assert_eq!(first.digest_bits.len(), 256);
    assert_eq!(first.message_bits, bytes_to_bits(&sha256_fixed_message()));
    assert_eq!(first.digest_bits, expected_digest_bits());
}
