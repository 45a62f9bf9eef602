use vstd::prelude::*;

use crate::error::Unspecified;

verus! {

/// Marks a buffer that holds an elliptic curve private key as a big-endian fixed-length
/// integer.
pub struct EcPrivateKeyBinType {
    _priv: (),
}

/// Marks a buffer that holds an elliptic curve private key as a DER `ECPrivateKey`
/// (RFC 5915) structure.
pub struct EcPrivateKeyRfc5915DerType {
    _priv: (),
}

/// Marks a buffer that holds an elliptic curve public key as a DER (X.509)
/// `SubjectPublicKeyInfo` structure.
pub struct EcPublicKeyX509DerType {
    _priv: (),
}

/// Marks a buffer that holds an Ed25519 seed.
pub struct Ed25519SeedBufferType {
    _priv: (),
}

/// Values that can be serialized into a DER format.
pub trait AsDer<T> {
    /// Serializes into a DER format; fails with `Unspecified`.
    fn as_der(&self) -> Result<T, Unspecified>;
}

/// Values that can be serialized into a big-endian format.
pub trait AsBigEndian<T> {
    /// Serializes into a big-endian format; fails with `Unspecified`.
    fn as_be_bytes(&self) -> Result<T, Unspecified>;
}

} // verus!
