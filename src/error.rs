use vstd::prelude::*;

verus! {

/// An error with no further detail, deliberately opaque.
#[derive(Clone, Copy, Debug, PartialEq, Eq, Structural)]
pub struct Unspecified;

/// Why a key was refused.
#[derive(Clone, Copy, Debug, PartialEq, Eq, Structural)]
pub enum KeyRejected {
    /// The key belongs to another algorithm or curve than the one expected.
    WrongAlgorithm,
    /// The key's parts do not agree with each other, or the consistency check failed.
    InconsistentComponents,
    /// The key's bytes are not a valid encoding.
    InvalidEncoding,
    /// The input is too large to be handed to the engine.
    TooLarge,
    /// The key was refused for an unspecified reason.
    Unspecified,
}

impl KeyRejected {
    /// A short description of the reason.
    pub fn description(&self) -> (r: &'static str) {
        match self {
            KeyRejected::WrongAlgorithm => "WrongAlgorithm",
            KeyRejected::InconsistentComponents => "InconsistentComponents",
            KeyRejected::InvalidEncoding => "InvalidEncoding",
            KeyRejected::TooLarge => "TooLarge",
            KeyRejected::Unspecified => "Unspecified",
        }
    }
}

} // verus!
