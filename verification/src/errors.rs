use vstd::prelude::*;

verus! {

/// The single outward error type of the library.  Every fatal failure is
/// one of four distinguishable kinds; a structurally valid proof that
/// merely fails cryptographic verification is *not* an error and resolves
/// to a boolean instead.
#[derive(Debug, Clone)]
pub enum MoproError {
    /// A caller-supplied value was malformed (not a non-negative decimal
    /// integer) or a required named input was absent.
    InputError(String),
    /// Key bytes could not be obtained from their source.
    IoError(String),
    /// Bytes did not match the expected serializer or circuit shape.
    DeserializationError(String),
    /// A witness value could not be bound to its circuit wire.
    WitnessError(String),
}

impl MoproError {
    /// The human-readable detail carried by the error.
    pub open spec fn spec_message(&self) -> Seq<char> {
        match self {
            MoproError::InputError(m) => m@,
            MoproError::IoError(m) => m@,
            MoproError::DeserializationError(m) => m@,
            MoproError::WitnessError(m) => m@,
        }
    }

    /// Returns the human-readable detail carried by the error.
    pub fn message(&self) -> (r: String)
        ensures
            r@ == self.spec_message(),
    {
        match self {
            MoproError::InputError(m) => m.clone(),
            MoproError::IoError(m) => m.clone(),
            MoproError::DeserializationError(m) => m.clone(),
            MoproError::WitnessError(m) => m.clone(),
        }
    }
}

} // verus!
