//! Verified core of a safety layer over a native cryptographic engine: nonce sequences,
//! ECDSA signature format conversion, curve and key validation rules, and algorithm
//! descriptors.

pub mod error;
pub mod nonce_sequence;
pub mod ec;
pub mod ecdsa_signature;
pub mod fips;
pub mod encoding;
pub mod kbkdf;
pub mod rsa;
