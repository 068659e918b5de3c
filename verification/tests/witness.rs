use mopro::errors::MoproError;
use mopro::inputs::{fibonacci_witness, InputEntry, InputMap};

fn entry(name: &str, values: &[&str]) -> InputEntry {
    InputEntry {
        name: String::from(name),
        values: values.iter().map(|v| String::from(*v)).collect(),
    }
}

#[test]
fn witness_binds_a_then_b() {
    let map = InputMap {
        entries: vec![entry("a", &["3"]), entry("b", &["5"])],
    };
    let w = fibonacci_witness(&map).unwrap();
    assert_eq!(w.a.value, 3);
    assert_eq!(w.b.value, 5);
    // Position encodes wire identity: index 0 is a, index 1 is b.
    assert_eq!(w.wire_values(), vec![3, 5]);
}

#[test]
fn witness_order_of_entries_does_not_matter() {
    let map = InputMap {
        entries: vec![entry("b", &["5"]), entry("a", &["3"])],
    };
    let w = fibonacci_witness(&map).unwrap();
    assert_eq!(w.wire_values(), vec![3, 5]);
}

#[test]
fn witness_reduces_large_operands() {
    let map = InputMap {
        entries: vec![
            entry("a", &["18446744069414584330"]),
            entry("b", &["18446744069414584321"]),
        ],
    };
    let w = fibonacci_witness(&map).unwrap();
    assert_eq!(w.a.value, 9);
    assert_eq!(w.b.value, 0);
}

#[test]
fn witness_first_entry_and_first_value_win() {
    let map = InputMap {
        entries: vec![
            entry("a", &["1", "99"]),
            entry("a", &["88"]),
            entry("b", &["2"]),
        ],
    };
    let w = fibonacci_witness(&map).unwrap();
    assert_eq!(w.wire_values(), vec![1, 2]);
}

#[test]
fn missing_b_is_an_input_error() {
    let map = InputMap {
        entries: vec![entry("a", &["3"])],
    };
    match fibonacci_witness(&map) {
        Err(MoproError::InputError(_)) => {}
        other => panic!("expected an input error, got {:?}", other),
    }
}

#[test]
fn missing_a_is_an_input_error() {
    let map = InputMap {
        entries: vec![entry("b", &["5"])],
    };
    match fibonacci_witness(&map) {
        Err(MoproError::InputError(_)) => {}
        other => panic!("expected an input error, got {:?}", other),
    }
}

#[test]
fn empty_value_list_is_an_input_error() {
    let map = InputMap {
        entries: vec![entry("a", &[]), entry("b", &["5"])],
    };
    match fibonacci_witness(&map) {
        Err(MoproError::InputError(_)) => {}
        other => panic!("expected an input error, got {:?}", other),
    }
}

#[test]
fn malformed_operand_is_an_input_error() {
    let map = InputMap {
        entries: vec![entry("a", &["3"]), entry("b", &["five"])],
    };
    match fibonacci_witness(&map) {
        Err(MoproError::InputError(_)) => {}
        other => panic!("expected an input error, got {:?}", other),
    }
}
