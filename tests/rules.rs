use aws_lc_rs::error::KeyRejected;
use aws_lc_rs::fips::{consistency_verdict, indicator_verdict, CheckOutcome, FipsServiceStatus, KeyValidationPolicy};
use aws_lc_rs::kbkdf::{get_kbkdf_ctr_hmac_algorithm, DigestAlgorithmId, KbkdfCtrHmacAlgorithmId};
use aws_lc_rs::rsa::{
    is_rsa_key, is_valid_public_component, validate_private_key, KeySize, PublicKey, EVP_PKEY_RSA,
    EVP_PKEY_RSA_PSS,
};

#[test]
fn indicator_verdicts() {
    assert_eq!(indicator_verdict(true, 5, 6), FipsServiceStatus::ApprovedMode);
    assert_eq!(indicator_verdict(true, 5, 5), FipsServiceStatus::NonApprovedMode);
    assert_eq!(indicator_verdict(false, 5, 6), FipsServiceStatus::Unexpected);
    assert_eq!(indicator_verdict(false, 5, 5), FipsServiceStatus::Unexpected);
}

#[test]
fn consistency_verdicts() {
    let ok = CheckOutcome { return_code: 1, status: FipsServiceStatus::ApprovedMode };
    let non = CheckOutcome { return_code: 1, status: FipsServiceStatus::NonApprovedMode };
    let bad = CheckOutcome { return_code: 0, status: FipsServiceStatus::ApprovedMode };
    assert_eq!(consistency_verdict(KeyValidationPolicy::StandardCheck, ok), Ok(()));
    assert_eq!(consistency_verdict(KeyValidationPolicy::StandardCheck, non), Ok(()));
    assert_eq!(
        consistency_verdict(KeyValidationPolicy::StandardCheck, bad),
        Err(KeyRejected::InconsistentComponents)
    );
    assert_eq!(consistency_verdict(KeyValidationPolicy::ApprovedModeCheck, ok), Ok(()));
    assert_eq!(
        consistency_verdict(KeyValidationPolicy::ApprovedModeCheck, non),
        Err(KeyRejected::InconsistentComponents)
    );
    assert_eq!(
        consistency_verdict(KeyValidationPolicy::ApprovedModeCheck, bad),
        Err(KeyRejected::InconsistentComponents)
    );
    assert_eq!(KeyRejected::InconsistentComponents.description(), "InconsistentComponents");
}

#[test]
fn rsa_key_sizes() {
    assert_eq!(KeySize::Rsa2048.len(), 256);
    assert_eq!(KeySize::Rsa3072.len(), 384);
    assert_eq!(KeySize::Rsa4096.len(), 512);
    assert_eq!(KeySize::Rsa8192.len(), 1024);
    assert_eq!(KeySize::Rsa2048.bits(), 2048);
    assert_eq!(KeySize::Rsa8192.bits(), 8192);
}

#[test]
fn rsa_private_key_validation() {
    assert!(is_rsa_key(EVP_PKEY_RSA));
    assert!(is_rsa_key(EVP_PKEY_RSA_PSS));
    assert!(!is_rsa_key(408));
    assert_eq!(validate_private_key(EVP_PKEY_RSA, 2048), Ok(()));
    assert_eq!(validate_private_key(EVP_PKEY_RSA_PSS, 8192), Ok(()));
    assert_eq!(validate_private_key(EVP_PKEY_RSA, 1024), Err(KeyRejected::Unspecified));
    assert_eq!(validate_private_key(EVP_PKEY_RSA, 8193), Err(KeyRejected::Unspecified));
    assert_eq!(validate_private_key(408, 2048), Err(KeyRejected::Unspecified));
}

#[test]
fn rsa_public_components() {
    assert!(is_valid_public_component(&[1, 0, 1]));
    assert!(!is_valid_public_component(&[]));
    assert!(!is_valid_public_component(&[0, 1]));
}

#[test]
fn rsa_public_key_bytes_and_zeroize() {
    let mut k = PublicKey::from_der_bytes(vec![0x30, 0x03, 0x02, 0x01, 0x03]);
    assert_eq!(k.as_bytes(), &[0x30, 0x03, 0x02, 0x01, 0x03]);
    assert_eq!(k.as_ref(), k.as_bytes());
    let copy = k.clone();
    k.zeroize();
    assert!(k.as_bytes().is_empty());
    assert_eq!(copy.as_bytes().len(), 5);
}

#[test]
fn kbkdf_algorithms() {
    for (id, d) in [
        (KbkdfCtrHmacAlgorithmId::Sha224, DigestAlgorithmId::SHA224),
        (KbkdfCtrHmacAlgorithmId::Sha256, DigestAlgorithmId::SHA256),
        (KbkdfCtrHmacAlgorithmId::Sha384, DigestAlgorithmId::SHA384),
        (KbkdfCtrHmacAlgorithmId::Sha512, DigestAlgorithmId::SHA512),
    ] {
        let alg = get_kbkdf_ctr_hmac_algorithm(id).unwrap();
        assert_eq!(alg.id(), id);
        assert_eq!(alg.digest_algorithm(), d);
    }
    assert_eq!(
        get_kbkdf_ctr_hmac_algorithm(KbkdfCtrHmacAlgorithmId::Sha256),
        get_kbkdf_ctr_hmac_algorithm(KbkdfCtrHmacAlgorithmId::Sha256)
    );
    assert_ne!(
        get_kbkdf_ctr_hmac_algorithm(KbkdfCtrHmacAlgorithmId::Sha256),
        get_kbkdf_ctr_hmac_algorithm(KbkdfCtrHmacAlgorithmId::Sha512)
    );
}
