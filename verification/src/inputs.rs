//! Named proof inputs and witness selection for the Fibonacci relation.
//!
//! The Fibonacci circuit wants exactly two named operands, `a` on the
//! public-input wire at index 0 and `b` on the wire at index 1.  A
//! name that is absent, an entry with no values, or a value that is
//! not a decimal string is an input error, raised before any key file
//! is touched and before any proving work starts.

use vstd::prelude::*;
use vstd::string::*;
use crate::errors::MoproError;
use crate::field::{dec_value, encode_field, FieldElement, GOLDILOCKS_ORDER};
use crate::codec::valid_input;

verus! {

/// One named input: a logical name bound to an ordered list of
/// decimal-string values.
pub struct InputEntry {
    pub name: String,
    pub values: Vec<String>,
}

/// An ordered mapping from logical input names to value lists; the
/// first entry with a given name wins.
pub struct InputMap {
    pub entries: Vec<InputEntry>,
}

/// The value list of the first entry named `key`, if any.
pub open spec fn lookup_entries(entries: Seq<InputEntry>, key: Seq<char>) -> Option<Seq<Seq<char>>>
    decreases entries.len(),
{
    if entries.len() == 0 {
        None
    } else if entries[0].name@ == key {
        Some(entries[0].values@.map_values(|v: String| v@))
    } else {
        lookup_entries(entries.drop_first(), key)
    }
}

/// The first value bound to `key`, if the key is present and its list
/// is non-empty.
pub open spec fn first_value(entries: Seq<InputEntry>, key: Seq<char>) -> Option<Seq<char>> {
    match lookup_entries(entries, key) {
        Option::None => Option::None,
        Option::Some(vs) => if vs.len() >= 1 {
            Option::Some(vs[0])
        } else {
            Option::None
        },
    }
}

/// Whether `key` is bound to a usable first value: present, non-empty
/// list, and a non-empty decimal string.
pub open spec fn named_input_ok(entries: Seq<InputEntry>, key: Seq<char>) -> bool {
    match first_value(entries, key) {
        Option::Some(s) => valid_input(s),
        Option::None => false,
    }
}

/// The field element the first value of `key` denotes.
pub open spec fn named_input_value(entries: Seq<InputEntry>, key: Seq<char>) -> nat {
    dec_value(first_value(entries, key).unwrap()) % (GOLDILOCKS_ORDER as nat)
}

impl InputMap {
    /// Returns the value list of the first entry named `key`, if any.
    pub fn get_values(&self, key: &String) -> (r: Option<&Vec<String>>)
        ensures
            match r {
                Option::Some(vs) => lookup_entries(self.entries@, key@) == Option::Some(
                    vs@.map_values(|v: String| v@),
                ),
                Option::None => lookup_entries(self.entries@, key@) is None,
            },
    {
        let n = self.entries.len();
        proof {
            assert(self.entries@.skip(0) =~= self.entries@);
        }
        let mut i: usize = 0;
        while i < n
            invariant
                n == self.entries@.len(),
                i <= n,
                lookup_entries(self.entries@, key@) == lookup_entries(
                    self.entries@.skip(i as int),
                    key@,
                ),
            decreases n - i,
        {
            proof {
                assert(self.entries@.skip(i as int)[0] == self.entries@[i as int]);
                assert(self.entries@.skip(i as int).drop_first() =~= self.entries@.skip(
                    i as int + 1,
                ));
            }
            if self.entries[i].name.eq(key) {
                return Some(&self.entries[i].values);
            }
            i = i + 1;
        }
        proof {
            assert(self.entries@.skip(n as int).len() == 0);
        }
        None
    }
}

/// The two field elements to bind to the Fibonacci circuit's
/// public-input wires: `a` at wire index 0, `b` at wire index 1.
#[derive(Debug, Clone, Copy, PartialEq, Eq, Structural)]
pub struct FibonacciWitness {
    pub a: FieldElement,
    pub b: FieldElement,
}

impl FibonacciWitness {
    /// Both operands hold canonical field representatives.
    pub open spec fn wf(&self) -> bool {
        self.a.wf() && self.b.wf()
    }

    /// The ordered public-input wire values: position encodes wire
    /// identity, `a` first, then `b`.
    pub fn wire_values(&self) -> (r: Vec<u64>)
        ensures
            r@ =~= seq![self.a.value, self.b.value],
    {
        let mut out: Vec<u64> = Vec::new();
        out.push(self.a.value);
        out.push(self.b.value);
        out
    }
}

/// Selects the Fibonacci witness from the named inputs: the first
/// value of `a` and the first value of `b`, each parsed as a decimal
/// string and reduced into the field.  Any missing or malformed piece
/// is an input error, and nothing else is consulted.
pub fn fibonacci_witness(inputs: &InputMap) -> (r: Result<FibonacciWitness, MoproError>)
    ensures
        match r {
            Ok(w) => {
                &&& named_input_ok(inputs.entries@, "a"@)
                &&& named_input_ok(inputs.entries@, "b"@)
                &&& w.wf()
                &&& w.a.value == named_input_value(inputs.entries@, "a"@)
                &&& w.b.value == named_input_value(inputs.entries@, "b"@)
            },
            Err(e) => {
                &&& !(named_input_ok(inputs.entries@, "a"@) && named_input_ok(
                    inputs.entries@,
                    "b"@,
                ))
                &&& e is InputError
            },
        },
{
    let key_a = String::from_str("a");
    let key_b = String::from_str("b");
    let a = match named_field_value(inputs, &key_a) {
        Ok(f) => f,
        Err(e) => {
            return Err(e);
        },
    };
    let b = match named_field_value(inputs, &key_b) {
        Ok(f) => f,
        Err(e) => {
            return Err(e);
        },
    };
    Ok(FibonacciWitness { a, b })
}

/// Parses the first value bound to `key` into a field element.
fn named_field_value(inputs: &InputMap, key: &String) -> (r: Result<FieldElement, MoproError>)
    ensures
        match r {
            Ok(f) => {
                &&& named_input_ok(inputs.entries@, key@)
                &&& f.wf()
                &&& f.value == named_input_value(inputs.entries@, key@)
            },
            Err(e) => {
                &&& !named_input_ok(inputs.entries@, key@)
                &&& e is InputError
            },
        },
{
    let values = match inputs.get_values(key) {
        Some(vs) => vs,
        None => {
            return Err(MoproError::InputError(
                String::from_str("a required named input is missing").concat(": ").concat(
                    key.as_str(),
                ),
            ));
        },
    };
    if values.len() == 0 {
        return Err(MoproError::InputError(
            String::from_str("a required named input has no values").concat(": ").concat(
                key.as_str(),
            ),
        ));
    }
    let first = &values[0];
    match encode_field(first.as_str()) {
        Ok(f) => Ok(f),
        Err(e) => Err(e),
    }
}

} // verus!
