use vstd::prelude::*;

verus! {

/// Key-based key derivation algorithm identifiers.
#[non_exhaustive]
#[derive(Clone, Copy, PartialEq, Eq, Debug, Structural)]
pub enum KbkdfCtrHmacAlgorithmId {
    /// KBKDF in counter mode with HMAC-SHA224
    Sha224,
    /// KBKDF in counter mode with HMAC-SHA256
    Sha256,
    /// KBKDF in counter mode with HMAC-SHA384
    Sha384,
    /// KBKDF in counter mode with HMAC-SHA512
    Sha512,
}

/// The digest algorithms behind the HMAC of a derivation.
#[derive(Clone, Copy, PartialEq, Eq, Debug, Structural)]
pub enum DigestAlgorithmId {
    SHA224,
    SHA256,
    SHA384,
    SHA512,
}

/// KBKDF in counter mode with an HMAC.
#[derive(PartialEq, Eq, Debug, Structural)]
pub struct KbkdfCtrHmacAlgorithm {
    id: KbkdfCtrHmacAlgorithmId,
}

impl View for KbkdfCtrHmacAlgorithm {
    type V = KbkdfCtrHmacAlgorithmId;

    closed spec fn view(&self) -> KbkdfCtrHmacAlgorithmId {
        self.id
    }
}

/// The digest of the HMAC that the derivation `id` uses.
pub open spec fn spec_digest_of(id: KbkdfCtrHmacAlgorithmId) -> DigestAlgorithmId {
    match id {
        KbkdfCtrHmacAlgorithmId::Sha224 => DigestAlgorithmId::SHA224,
        KbkdfCtrHmacAlgorithmId::Sha256 => DigestAlgorithmId::SHA256,
        KbkdfCtrHmacAlgorithmId::Sha384 => DigestAlgorithmId::SHA384,
        KbkdfCtrHmacAlgorithmId::Sha512 => DigestAlgorithmId::SHA512,
    }
}

/// The derivation algorithm with identifier `id`; every identifier has one.
pub fn get_kbkdf_ctr_hmac_algorithm(id: KbkdfCtrHmacAlgorithmId) -> (r: Option<
    KbkdfCtrHmacAlgorithm,
>)
    ensures
        r matches Some(a) && a@ == id,
{
    Some(KbkdfCtrHmacAlgorithm { id })
}

impl KbkdfCtrHmacAlgorithm {
    /// The algorithm's identifier.
    pub fn id(&self) -> (r: KbkdfCtrHmacAlgorithmId)
        ensures
            r == self@,
    {
        self.id
    }

    /// The digest of the HMAC that this derivation uses.
    pub fn digest_algorithm(&self) -> (r: DigestAlgorithmId)
        ensures
            r == spec_digest_of(self@),
    {
        match self.id {
            KbkdfCtrHmacAlgorithmId::Sha224 => DigestAlgorithmId::SHA224,
            KbkdfCtrHmacAlgorithmId::Sha256 => DigestAlgorithmId::SHA256,
            KbkdfCtrHmacAlgorithmId::Sha384 => DigestAlgorithmId::SHA384,
            KbkdfCtrHmacAlgorithmId::Sha512 => DigestAlgorithmId::SHA512,
        }
    }
}

} // verus!
