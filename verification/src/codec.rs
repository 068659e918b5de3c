//! Length-prefixed wire format for a public-input vector.
//!
//! The wire form of an ordered sequence of field elements is an 8-byte
//! little-endian count followed by each element's canonical representative
//! as 8 little-endian bytes, in order, with no padding and no checksum.
//! Decoding reads exactly the prefixed count; missing or trailing bytes
//! are a decode error.

use vstd::prelude::*;
use vstd::bytes::{spec_u64_from_le_bytes, spec_u64_to_le_bytes, u64_from_le_bytes, u64_to_le_bytes};
use vstd::slice::slice_subrange;
use crate::errors::MoproError;
use crate::field::{
    all_dec_digits, dec_string_of, dec_value, decode_field, encode_field, FieldElement,
    GOLDILOCKS_ORDER,
};

verus! {

/// Whether `s` is accepted as an input value: a non-empty string of
/// decimal digits.
pub open spec fn valid_input(s: Seq<char>) -> bool {
    all_dec_digits(s) && s.len() >= 1
}

/// The field element each input string denotes, reduced modulo the
/// field order.
pub open spec fn values_of(strs: Seq<Seq<char>>) -> Seq<u64> {
    strs.map_values(|s: Seq<char>| (dec_value(s) % (GOLDILOCKS_ORDER as nat)) as u64)
}

/// The canonical decimal strings a value sequence decodes to.
pub open spec fn decoded_strings(vals: Seq<u64>) -> Seq<Seq<char>> {
    vals.map_values(|v: u64| dec_string_of((v as nat) % (GOLDILOCKS_ORDER as nat)))
}

/// The concatenated little-endian encodings of a value sequence.
pub open spec fn le_bytes_of_values(vals: Seq<u64>) -> Seq<u8>
    decreases vals.len(),
{
    if vals.len() == 0 {
        Seq::empty()
    } else {
        le_bytes_of_values(vals.drop_last()) + spec_u64_to_le_bytes(vals.last())
    }
}

/// The full wire form: little-endian count, then the elements.
pub open spec fn wire_of_values(vals: Seq<u64>) -> Seq<u8> {
    spec_u64_to_le_bytes(vals.len() as u64) + le_bytes_of_values(vals)
}

/// What a byte buffer parses to: `None` when it is shorter than its
/// count demands or longer (trailing bytes), else the raw element words.
pub open spec fn parse_wire(b: Seq<u8>) -> Option<Seq<u64>> {
    if b.len() < 8 {
        None
    } else {
        let n = spec_u64_from_le_bytes(b.take(8)) as nat;
        if b.len() == 8 + 8 * n {
            Some(Seq::new(n, |i: int| spec_u64_from_le_bytes(b.subrange(8 + 8 * i, 16 + 8 * i))))
        } else {
            None
        }
    }
}

/// The encoding of a value sequence is eight bytes per element.
proof fn lemma_le_bytes_of_values_len(vals: Seq<u64>)
    ensures
        le_bytes_of_values(vals).len() == 8 * vals.len(),
    decreases vals.len(),
{
    vstd::bytes::lemma_auto_spec_u64_to_from_le_bytes();
    if vals.len() > 0 {
        lemma_le_bytes_of_values_len(vals.drop_last());
    }
}

/// Element `i` occupies bytes `8 i .. 8 i + 8` of the encoding.
proof fn lemma_le_bytes_of_values_index(vals: Seq<u64>, i: int)
    requires
        0 <= i < vals.len(),
    ensures
        le_bytes_of_values(vals).subrange(8 * i, 8 * i + 8) =~= spec_u64_to_le_bytes(vals[i]),
    decreases vals.len(),
{
    vstd::bytes::lemma_auto_spec_u64_to_from_le_bytes();
    lemma_le_bytes_of_values_len(vals);
    lemma_le_bytes_of_values_len(vals.drop_last());
    if i < vals.len() - 1 {
        lemma_le_bytes_of_values_index(vals.drop_last(), i);
        assert(le_bytes_of_values(vals).subrange(8 * i, 8 * i + 8) =~= le_bytes_of_values(
            vals.drop_last(),
        ).subrange(8 * i, 8 * i + 8));
    } else {
        assert(vals.last() == vals[i]);
    }
}

/// Parsing inverts building: the wire form of any value sequence parses
/// back to exactly that sequence.
pub proof fn lemma_wire_round_trip(vals: Seq<u64>)
    requires
        vals.len() <= u64::MAX,
    ensures
        parse_wire(wire_of_values(vals)) == Some(vals),
{
    vstd::bytes::lemma_auto_spec_u64_to_from_le_bytes();
    let b = wire_of_values(vals);
    lemma_le_bytes_of_values_len(vals);
    assert(b.take(8) =~= spec_u64_to_le_bytes(vals.len() as u64));
    assert(spec_u64_from_le_bytes(b.take(8)) == vals.len() as u64);
    let parsed = Seq::new(
        vals.len() as nat,
        |i: int| spec_u64_from_le_bytes(b.subrange(8 + 8 * i, 16 + 8 * i)),
    );
    assert forall|i: int| 0 <= i < vals.len() implies parsed[i] == vals[i] by {
        lemma_le_bytes_of_values_index(vals, i);
        assert(b.subrange(8 + 8 * i, 16 + 8 * i) =~= le_bytes_of_values(vals).subrange(
            8 * i,
            8 * i + 8,
        ));
    }
    assert(parsed =~= vals);
}

/// Round trip of the public-input serializer: any ordered sequence of
/// canonical decimal strings for values below the field order is
/// returned exactly by deserializing its own serialization.
pub proof fn lemma_inputs_round_trip(strs: Seq<Seq<char>>)
    requires
        strs.len() <= u64::MAX,
        forall|i: int|
            0 <= i < strs.len() ==> crate::field::is_canonical_dec(#[trigger] strs[i])
                && dec_value(strs[i]) < GOLDILOCKS_ORDER,
    ensures
        parse_wire(wire_of_values(values_of(strs))) == Some(values_of(strs)),
        decoded_strings(values_of(strs)) =~= strs,
{
    let vals = values_of(strs);
    lemma_wire_round_trip(vals);
    assert forall|i: int| 0 <= i < strs.len() implies decoded_strings(vals)[i] == strs[i] by {
        vstd::arithmetic::div_mod::lemma_small_mod(dec_value(strs[i]), GOLDILOCKS_ORDER as nat);
        assert(vals[i] == dec_value(strs[i]));
        vstd::arithmetic::div_mod::lemma_small_mod(vals[i] as nat, GOLDILOCKS_ORDER as nat);
        crate::field::lemma_canonical_dec_unique(strs[i]);
    }
}

/// Serializes an ordered sequence of decimal input strings into the
/// length-prefixed wire form of their field elements.  Any string that
/// is not a non-empty run of decimal digits is an input error.
pub fn serialize_inputs(public_inputs: &Vec<String>) -> (r: Result<Vec<u8>, MoproError>)
    ensures
        match r {
            Ok(bytes) => {
                &&& forall|i: int|
                    0 <= i < public_inputs@.len() ==> valid_input(#[trigger] public_inputs@[i]@)
                &&& bytes@ == wire_of_values(
                    values_of(public_inputs@.map_values(|s: String| s@)),
                )
            },
            Err(e) => {
                &&& !(forall|i: int|
                    0 <= i < public_inputs@.len() ==> valid_input(#[trigger] public_inputs@[i]@))
                &&& e is InputError
            },
        },
{
    let ghost strs = public_inputs@.map_values(|s: String| s@);
    let count: usize = public_inputs.len();
    let mut out: Vec<u8> = u64_to_le_bytes(count as u64);
    let mut i: usize = 0;
    while i < count
        invariant
            count == public_inputs@.len(),
            strs == public_inputs@.map_values(|s: String| s@),
            i <= count,
            forall|j: int| 0 <= j < i ==> valid_input(#[trigger] public_inputs@[j]@),
            out@ == spec_u64_to_le_bytes(count as u64) + le_bytes_of_values(
                values_of(strs.take(i as int)),
            ),
        decreases count - i,
    {
        let f = match encode_field(public_inputs[i].as_str()) {
            Ok(f) => f,
            Err(e) => {
                return Err(e);
            },
        };
        let mut piece: Vec<u8> = u64_to_le_bytes(f.value);
        out.append(&mut piece);
        proof {
            let vs_next = values_of(strs.take(i as int + 1));
            assert(vs_next.drop_last() =~= values_of(strs.take(i as int)));
            assert(vs_next.last() == f.value);
            assert(out@ =~= spec_u64_to_le_bytes(count as u64) + le_bytes_of_values(vs_next));
        }
        i = i + 1;
    }
    proof {
        assert(strs.take(count as int) =~= strs);
        assert(values_of(strs).len() == count);
    }
    Ok(out)
}

/// Serializes already-encoded field values into the length-prefixed
/// wire form.  The produced buffer always parses back to exactly the
/// given values.
pub fn serialize_field_values(values: &Vec<u64>) -> (r: Vec<u8>)
    ensures
        r@ == wire_of_values(values@),
        parse_wire(r@) == Some(values@),
{
    let count: usize = values.len();
    let mut out: Vec<u8> = u64_to_le_bytes(count as u64);
    let mut i: usize = 0;
    while i < count
        invariant
            count == values@.len(),
            i <= count,
            out@ == spec_u64_to_le_bytes(count as u64) + le_bytes_of_values(
                values@.take(i as int),
            ),
        decreases count - i,
    {
        let mut piece: Vec<u8> = u64_to_le_bytes(values[i]);
        out.append(&mut piece);
        proof {
            let vs_next = values@.take(i as int + 1);
            assert(vs_next.drop_last() =~= values@.take(i as int));
            assert(vs_next.last() == values@[i as int]);
            assert(out@ =~= spec_u64_to_le_bytes(count as u64) + le_bytes_of_values(vs_next));
        }
        i = i + 1;
    }
    proof {
        assert(values@.take(count as int) =~= values@);
        lemma_wire_round_trip(values@);
    }
    out
}

/// Deserializes a length-prefixed public-input buffer back into the
/// canonical decimal strings of its field elements.  A buffer whose
/// length does not exactly match its prefixed count is a
/// deserialization error.
pub fn deserialize_inputs(buffer: Vec<u8>) -> (r: Result<Vec<String>, MoproError>)
    ensures
        match r {
            Ok(strs) => {
                &&& parse_wire(buffer@) is Some
                &&& strs@.map_values(|s: String| s@) =~= decoded_strings(
                    parse_wire(buffer@).unwrap(),
                )
            },
            Err(e) => {
                &&& parse_wire(buffer@) is None
                &&& e is DeserializationError
            },
        },
{
    proof {
        vstd::bytes::lemma_auto_spec_u64_to_from_le_bytes();
    }
    if buffer.len() < 8 {
        return Err(MoproError::DeserializationError(
            String::from_str("public-input buffer is shorter than its length prefix"),
        ));
    }
    let head = slice_subrange(buffer.as_slice(), 0, 8);
    let count_u64: u64 = u64_from_le_bytes(head);
    let len_u64: u64 = buffer.len() as u64;
    if count_u64 > (len_u64 - 8) / 8 || len_u64 != 8 + count_u64 * 8 {
        return Err(MoproError::DeserializationError(
            String::from_str("public-input buffer does not match its length prefix"),
        ));
    }
    let count: usize = count_u64 as usize;
    let blen: usize = buffer.len();
    let ghost vals = parse_wire(buffer@).unwrap();
    proof {
        assert(buffer@.take(8) =~= head@);
        assert(vals.len() == count);
        assert(buffer@.len() == blen);
    }
    let mut out: Vec<String> = Vec::new();
    let mut i: usize = 0;
    while i < count
        invariant
            count == vals.len(),
            8 + 8 * count == buffer@.len(),
            buffer@.len() <= usize::MAX,
            parse_wire(buffer@) == Some(vals),
            i <= count,
            out@.len() == i,
            forall|j: int|
                0 <= j < i ==> (#[trigger] out@[j])@ == dec_string_of(
                    (vals[j] as nat) % (GOLDILOCKS_ORDER as nat),
                ),
        decreases count - i,
    {
        let lo: usize = 8 + i * 8;
        let piece = slice_subrange(buffer.as_slice(), lo, lo + 8);
        let word: u64 = u64_from_le_bytes(piece);
        proof {
            assert(piece@ =~= buffer@.subrange(8 + 8 * (i as int), 16 + 8 * (i as int)));
            assert(word == vals[i as int]);
        }
        let reduced: u64 = if word >= GOLDILOCKS_ORDER {
            proof {
                vstd::arithmetic::div_mod::lemma_fundamental_div_mod_converse(
                    word as int,
                    GOLDILOCKS_ORDER as int,
                    1,
                    word - GOLDILOCKS_ORDER,
                );
            }
            word - GOLDILOCKS_ORDER
        } else {
            proof {
                vstd::arithmetic::div_mod::lemma_small_mod(
                    word as nat,
                    GOLDILOCKS_ORDER as nat,
                );
            }
            word
        };
        let fe = FieldElement { value: reduced };
        let s = decode_field(&fe);
        out.push(s);
        i = i + 1;
    }
    proof {
        assert(out@.map_values(|s: String| s@) =~= decoded_strings(vals));
    }
    Ok(out)
}

} // verus!
