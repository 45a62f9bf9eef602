use vstd::prelude::*;

use zeroize::Zeroize;

use crate::ecdsa_signature::is_minimal_positive;
use crate::error::KeyRejected;

verus! {

/// RSA key sizes.
#[non_exhaustive]
#[derive(Clone, Copy, Debug, PartialEq, Eq, Structural)]
pub enum KeySize {
    /// 2048-bit key
    Rsa2048,
    /// 3072-bit key
    Rsa3072,
    /// 4096-bit key
    Rsa4096,
    /// 8192-bit key
    Rsa8192,
}

/// Size in bytes of a key of size `k`.
pub open spec fn spec_key_size_len(k: KeySize) -> nat {
    match k {
        KeySize::Rsa2048 => 256,
        KeySize::Rsa3072 => 384,
        KeySize::Rsa4096 => 512,
        KeySize::Rsa8192 => 1024,
    }
}

impl KeySize {
    /// The size of the key in bytes.
    #[allow(clippy::len_without_is_empty)]
    pub fn len(self) -> (r: usize)
        ensures
            r == spec_key_size_len(self),
    {
        match self {
            KeySize::Rsa2048 => 256,
            KeySize::Rsa3072 => 384,
            KeySize::Rsa4096 => 512,
            KeySize::Rsa8192 => 1024,
        }
    }

    /// The size of the key in bits.
    pub fn bits(self) -> (r: i32)
        ensures
            r == 8 * spec_key_size_len(self),
    {
        match self {
            KeySize::Rsa2048 => 2048,
            KeySize::Rsa3072 => 3072,
            KeySize::Rsa4096 => 4096,
            KeySize::Rsa8192 => 8192,
        }
    }
}

/// The engine's key-type identifier of an RSA key.
pub const EVP_PKEY_RSA: i32 = 6;

/// The engine's key-type identifier of an RSA-PSS key.
pub const EVP_PKEY_RSA_PSS: i32 = 912;

/// Smallest accepted private key size in bits.
pub const MIN_PRIVATE_KEY_BITS: usize = 2048;

/// Largest accepted private key size in bits.
pub const MAX_PRIVATE_KEY_BITS: usize = 8192;

/// Whether the engine's key-type identifier `id` names an RSA key.
pub fn is_rsa_key(id: i32) -> (r: bool)
    ensures
        r == (id == EVP_PKEY_RSA || id == EVP_PKEY_RSA_PSS),
{
    id == EVP_PKEY_RSA || id == EVP_PKEY_RSA_PSS
}

/// Accepts a private key of type `id` and size `key_size_bits` only if it is an RSA key of
/// 2048 to 8192 bits.
pub fn validate_private_key(id: i32, key_size_bits: usize) -> (r: Result<(), KeyRejected>)
    ensures
        r == if (id == EVP_PKEY_RSA || id == EVP_PKEY_RSA_PSS) && MIN_PRIVATE_KEY_BITS
            <= key_size_bits <= MAX_PRIVATE_KEY_BITS {
            Ok(())
        } else {
            Err(KeyRejected::Unspecified)
        },
{
    if !is_rsa_key(id) {
        return Err(KeyRejected::Unspecified);
    }
    if MIN_PRIVATE_KEY_BITS <= key_size_bits && key_size_bits <= MAX_PRIVATE_KEY_BITS {
        Ok(())
    } else {
        Err(KeyRejected::Unspecified)
    }
}

/// Whether `bytes` may stand for a public modulus or exponent: big-endian, not empty,
/// without leading zeros.
pub fn is_valid_public_component(bytes: &[u8]) -> (r: bool)
    ensures
        r == is_minimal_positive(bytes@),
{
    bytes.len() > 0 && bytes[0] != 0
}

/// Relies on `zeroize::Zeroize` for `Vec<u8>`: every byte is overwritten with zero and the
/// vector is left empty.
#[verifier::external_body]
fn zeroize_vec(bytes: &mut Vec<u8>)
    ensures
        final(bytes)@.len() == 0,
{
    bytes.zeroize();
}

/// A serialized RSA public key: the DER `RSAPublicKey` structure.
pub struct PublicKey {
    key: Vec<u8>,
}

impl View for PublicKey {
    type V = Seq<u8>;

    closed spec fn view(&self) -> Seq<u8> {
        self.key@
    }
}

impl PublicKey {
    /// The public key whose DER encoding is `der`.
    pub fn from_der_bytes(der: Vec<u8>) -> (r: PublicKey)
        ensures
            r@ == der@,
    {
        PublicKey { key: der }
    }

    /// The DER encoding.
    pub fn as_bytes(&self) -> (r: &[u8])
        ensures
            r@ == self@,
    {
        self.key.as_slice()
    }

    /// Overwrites the key's bytes with zeros and leaves it empty.
    pub fn zeroize(&mut self)
        ensures
            final(self)@.len() == 0,
    {
        zeroize_vec(&mut self.key);
    }
}

impl AsRef<[u8]> for PublicKey {
    fn as_ref(&self) -> (r: &[u8])
        ensures
            r@ == self@,
    {
        self.key.as_slice()
    }
}

impl Clone for PublicKey {
    fn clone(&self) -> (r: Self)
        ensures
            r@ == self@,
    {
        PublicKey { key: self.key.clone() }
    }
}

} // verus!
