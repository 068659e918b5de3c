use mopro::codec::{deserialize_inputs, serialize_field_values, serialize_inputs};
use mopro::errors::MoproError;

fn le64(v: u64) -> Vec<u8> {
    v.to_le_bytes().to_vec()
}

#[test]
fn serialize_layout_is_length_prefix_then_elements() {
    let inputs = vec![String::from("1"), String::from("2"), String::from("3")];
    let bytes = serialize_inputs(&inputs).unwrap();
    let expected = vec![
        3u8, 0, 0, 0, 0, 0, 0, 0, 1, 0, 0, 0, 0, 0, 0, 0, 2, 0, 0, 0, 0, 0, 0, 0, 3, 0, 0, 0, 0,
        0, 0, 0,
    ];
    assert_eq!(bytes, expected);
}

#[test]
fn serialize_empty_list() {
    let bytes = serialize_inputs(&Vec::new()).unwrap();
    assert_eq!(bytes, le64(0));
    assert_eq!(deserialize_inputs(bytes).unwrap(), Vec::<String>::new());
}

#[test]
fn inputs_round_trip_exactly() {
    let inputs = vec![
        String::from("0"),
        String::from("1"),
        String::from("4294967295"),
        String::from("18446744069414584320"),
    ];
    let bytes = serialize_inputs(&inputs).unwrap();
    assert_eq!(deserialize_inputs(bytes).unwrap(), inputs);
}

#[test]
fn round_trip_is_lossy_only_at_the_string_level() {
    // A value at or above the field order is reduced once at encode
    // time; the buffer then round-trips the reduced element exactly.
    let inputs = vec![String::from("18446744069414584330")];
    let bytes = serialize_inputs(&inputs).unwrap();
    assert_eq!(deserialize_inputs(bytes).unwrap(), vec![String::from("9")]);
}

#[test]
fn serialize_rejects_malformed_value() {
    let inputs = vec![String::from("1"), String::from("x")];
    match serialize_inputs(&inputs) {
        Err(MoproError::InputError(_)) => {}
        other => panic!("expected an input error, got {:?}", other),
    }
}

#[test]
fn deserialize_rejects_short_buffer() {
    for buf in [Vec::new(), vec![1u8, 0, 0], le64(1)] {
        match deserialize_inputs(buf) {
            Err(MoproError::DeserializationError(_)) => {}
            other => panic!("expected a deserialization error, got {:?}", other),
        }
    }
}

#[test]
fn deserialize_rejects_trailing_bytes() {
    let mut bytes = serialize_inputs(&vec![String::from("5")]).unwrap();
    bytes.push(0);
    match deserialize_inputs(bytes) {
        Err(MoproError::DeserializationError(_)) => {}
        other => panic!("expected a deserialization error, got {:?}", other),
    }
}

#[test]
fn deserialize_rejects_count_mismatch() {
    // Count says two elements, only one follows.
    let mut bytes = le64(2);
    bytes.extend_from_slice(&le64(7));
    match deserialize_inputs(bytes) {
        Err(MoproError::DeserializationError(_)) => {}
        other => panic!("expected a deserialization error, got {:?}", other),
    }
}

#[test]
fn deserialize_reduces_noncanonical_words() {
    // A raw wire word holding exactly the field order decodes to "0".
    let mut bytes = le64(1);
    bytes.extend_from_slice(&le64(0xFFFF_FFFF_0000_0001));
    assert_eq!(deserialize_inputs(bytes).unwrap(), vec![String::from("0")]);
}

#[test]
fn field_value_serializer_matches_string_serializer() {
    let bytes = serialize_field_values(&vec![1, 2, 3]);
    let from_strings =
        serialize_inputs(&vec![String::from("1"), String::from("2"), String::from("3")]).unwrap();
    assert_eq!(bytes, from_strings);
}
