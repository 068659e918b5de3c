//! Witness plan for the SHA-256 relation.
//!
//! The relation checks one hard-wired hashing claim and nothing else:
//! its 128-byte message never varies (bytes 0 through 126 hold their
//! own index, byte 127 is zero), every bit of the message becomes a
//! boolean wire assignment, and the 256 digest wires are pinned at
//! circuit-build time, each to one literal bit of the table below, so
//! the digest is part of the circuit and not of its inputs.  Reusing
//! the relation with another digest means letting the digest travel
//! as a public input instead of pinning it.

use vstd::prelude::*;

verus! {

/// Length in bytes of the fixed message.
pub const SHA256_MESSAGE_BYTES: usize = 128;

/// Number of message-bit wires.
pub const SHA256_MESSAGE_BITS: usize = 1024;

/// Number of digest-bit wires.
pub const SHA256_DIGEST_BITS: usize = 256;

/// Expected digest bits 0..63, packed least-significant-bit first.
pub const DIGEST_BITS_0: u64 = 0xC26C_9F14_97C5_7A3C;

/// Expected digest bits 64..127, packed least-significant-bit first.
pub const DIGEST_BITS_1: u64 = 0xF95D_6899_6A0E_AF67;

/// Expected digest bits 128..191, packed least-significant-bit first.
pub const DIGEST_BITS_2: u64 = 0xAA1C_8221_0E70_6A8E;

/// Expected digest bits 192..255, packed least-significant-bit first.
pub const DIGEST_BITS_3: u64 = 0x407C_1CBA_EBB4_052D;

/// Byte `i` of the fixed message: its own index for the first 127
/// bytes, zero for the last.
pub open spec fn spec_fixed_message_byte(i: int) -> u8 {
    if 0 <= i < 127 {
        i as u8
    } else {
        0
    }
}

/// Bit `j` of a byte, most significant bit first, matching the wire
/// order the circuit's message bits use.
pub open spec fn spec_byte_bit(b: u8, j: int) -> bool {
    (b >> ((7 - j) as u8)) & 1 == 1
}

/// Bit `i` of the expected digest, as constrained into the circuit.
pub open spec fn spec_expected_digest_bit(i: int) -> bool {
    if i < 64 {
        (DIGEST_BITS_0 >> (i as u64)) & 1 == 1
    } else if i < 128 {
        (DIGEST_BITS_1 >> ((i - 64) as u64)) & 1 == 1
    } else if i < 192 {
        (DIGEST_BITS_2 >> ((i - 128) as u64)) & 1 == 1
    } else {
        (DIGEST_BITS_3 >> ((i - 192) as u64)) & 1 == 1
    }
}

/// Builds the fixed 128-byte message.
pub fn sha256_fixed_message() -> (r: Vec<u8>)
    ensures
        r@.len() == SHA256_MESSAGE_BYTES,
        forall|i: int| 0 <= i < r@.len() ==> r@[i] == spec_fixed_message_byte(i),
{
    let mut msg: Vec<u8> = Vec::new();
    let mut i: usize = 0;
    while i < 127
        invariant
            i <= 127,
            msg@.len() == i,
            forall|j: int| 0 <= j < i ==> msg@[j] == spec_fixed_message_byte(j),
        decreases 127 - i,
    {
        msg.push(i as u8);
        i = i + 1;
    }
    msg.push(0);
    msg
}

/// Splits bytes into bits, most significant bit of each byte first:
/// bit `8 i + j` of the result is bit `j` of byte `i`.
pub fn bytes_to_bits(bytes: &Vec<u8>) -> (r: Vec<bool>)
    ensures
        r@.len() == 8 * bytes@.len(),
        forall|i: int, j: int|
            0 <= i < bytes@.len() && 0 <= j < 8 ==> #[trigger] r@[8 * i + j] == spec_byte_bit(
                bytes@[i],
                j,
            ),
{
    let n = bytes.len();
    let mut out: Vec<bool> = Vec::new();
    let mut i: usize = 0;
    while i < n
        invariant
            n == bytes@.len(),
            i <= n,
            out@.len() == 8 * i,
            forall|k: int, j: int|
                0 <= k < i && 0 <= j < 8 ==> #[trigger] out@[8 * k + j] == spec_byte_bit(
                    bytes@[k],
                    j,
                ),
        decreases n - i,
    {
        let b = bytes[i];
        let mut j: usize = 0;
        while j < 8
            invariant
                n == bytes@.len(),
                i < n,
                b == bytes@[i as int],
                j <= 8,
                out@.len() == 8 * i + j,
                forall|k: int, jj: int|
                    0 <= k < i && 0 <= jj < 8 ==> #[trigger] out@[8 * k + jj] == spec_byte_bit(
                        bytes@[k],
                        jj,
                    ),
                forall|jj: int|
                    0 <= jj < j ==> out@[8 * (i as int) + jj] == spec_byte_bit(
                        bytes@[i as int],
                        jj,
                    ),
            decreases 8 - j,
        {
            let bit: bool = (b >> ((7 - j) as u8)) & 1 == 1;
            out.push(bit);
            j = j + 1;
        }
        i = i + 1;
    }
    out
}

/// Builds the 256 expected digest bits, in wire order.
pub fn expected_digest_bits() -> (r: Vec<bool>)
    ensures
        r@.len() == SHA256_DIGEST_BITS,
        forall|i: int| 0 <= i < r@.len() ==> r@[i] == spec_expected_digest_bit(i),
{
    let mut out: Vec<bool> = Vec::new();
    let mut i: usize = 0;
    while i < 256
        invariant
            i <= 256,
            out@.len() == i,
            forall|k: int| 0 <= k < i ==> out@[k] == spec_expected_digest_bit(k),
        decreases 256 - i,
    {
        let bit: bool = if i < 64 {
            (DIGEST_BITS_0 >> (i as u64)) & 1 == 1
        } else if i < 128 {
            (DIGEST_BITS_1 >> ((i - 64) as u64)) & 1 == 1
        } else if i < 192 {
            (DIGEST_BITS_2 >> ((i - 128) as u64)) & 1 == 1
        } else {
            (DIGEST_BITS_3 >> ((i - 192) as u64)) & 1 == 1
        };
        out.push(bit);
        i = i + 1;
    }
    out
}

/// The full witness plan of the relation: one boolean per message-bit
/// wire and one expected bit per digest wire.
pub struct Sha256WitnessPlan {
    pub message_bits: Vec<bool>,
    pub digest_bits: Vec<bool>,
}

/// Builds the complete witness plan of the relation: the 1024
/// message-bit assignments and the 256 pinned digest bits.  The plan
/// is a pure function of two constants, so every call yields the same
/// plan.
pub fn sha256_witness_plan() -> (r: Sha256WitnessPlan)
    ensures
        r.message_bits@.len() == SHA256_MESSAGE_BITS,
        forall|i: int, j: int|
            0 <= i < 128 && 0 <= j < 8 ==> #[trigger] r.message_bits@[8 * i + j] == spec_byte_bit(
                spec_fixed_message_byte(i),
                j,
            ),
        r.digest_bits@.len() == SHA256_DIGEST_BITS,
        forall|i: int| 0 <= i < 256 ==> r.digest_bits@[i] == spec_expected_digest_bit(i),
{
    let msg = sha256_fixed_message();
    let message_bits = bytes_to_bits(&msg);
    let digest_bits = expected_digest_bits();
    Sha256WitnessPlan { message_bits, digest_bits }
}

} // verus!
