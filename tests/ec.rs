use aws_lc_rs::ec::{
    compressed_public_key_size_bytes, ec_group_from_nid, ec_point_to_bytes,
    marshal_private_key_to_buffer, parse_point_encoding, uncompressed_public_key_size_bytes,
    validate_ec_key, verify_ec_key_nid, AlgorithmID, EcGroup, EcPoint, EncodedPoint,
    NID_X9_62_prime256v1, NID_secp224r1, NID_secp256k1, NID_secp384r1, NID_secp521r1,
};
use aws_lc_rs::error::KeyRejected;
use aws_lc_rs::fips::{CheckOutcome, FipsServiceStatus, KeyValidationPolicy};

const GROUPS: [EcGroup; 5] = [
    EcGroup::P224,
    EcGroup::P256,
    EcGroup::P384,
    EcGroup::P521,
    EcGroup::Secp256k1,
];

const PASSED: CheckOutcome = CheckOutcome {
    return_code: 1,
    status: FipsServiceStatus::ApprovedMode,
};

#[test]
fn groups_from_nids() {
    assert_eq!(ec_group_from_nid(NID_secp224r1), Ok(EcGroup::P224));
    assert_eq!(ec_group_from_nid(NID_X9_62_prime256v1), Ok(EcGroup::P256));
    assert_eq!(ec_group_from_nid(NID_secp384r1), Ok(EcGroup::P384));
    assert_eq!(ec_group_from_nid(NID_secp521r1), Ok(EcGroup::P521));
    assert_eq!(ec_group_from_nid(NID_secp256k1), Ok(EcGroup::Secp256k1));
    assert!(ec_group_from_nid(0).is_err());
    assert!(ec_group_from_nid(-1).is_err());
    for g in GROUPS {
        assert_eq!(ec_group_from_nid(g.nid()), Ok(g));
    }
}

#[test]
fn algorithm_curves() {
    assert_eq!(AlgorithmID::ECDSA_P256.nid(), 415);
    assert_eq!(AlgorithmID::ECDSA_P384.group(), EcGroup::P384);
    assert_eq!(AlgorithmID::ECDSA_P521.group().field_len(), 66);
    assert_eq!(AlgorithmID::ECDSA_P256K1.nid(), NID_secp256k1);
}

#[test]
fn curve_mismatch_is_wrong_algorithm() {
    for a in GROUPS {
        for b in GROUPS {
            let r = validate_ec_key(a.nid(), b.nid(), KeyValidationPolicy::StandardCheck, PASSED);
            if a == b {
                assert_eq!(r, Ok(()));
            } else {
                assert_eq!(r, Err(KeyRejected::WrongAlgorithm));
                assert_eq!(verify_ec_key_nid(a.nid(), b.nid()), Err(KeyRejected::WrongAlgorithm));
            }
        }
    }
}

#[test]
fn failed_check_is_inconsistent_components() {
    let nid = NID_X9_62_prime256v1;
    let failed = CheckOutcome {
        return_code: 0,
        status: FipsServiceStatus::Unexpected,
    };
    let unapproved = CheckOutcome {
        return_code: 1,
        status: FipsServiceStatus::NonApprovedMode,
    };
    assert_eq!(
        validate_ec_key(nid, nid, KeyValidationPolicy::StandardCheck, failed),
        Err(KeyRejected::InconsistentComponents)
    );
    assert_eq!(
        validate_ec_key(nid, nid, KeyValidationPolicy::StandardCheck, unapproved),
        Ok(())
    );
    assert_eq!(
        validate_ec_key(nid, nid, KeyValidationPolicy::ApprovedModeCheck, unapproved),
        Err(KeyRejected::InconsistentComponents)
    );
    assert_eq!(
        validate_ec_key(nid, nid, KeyValidationPolicy::ApprovedModeCheck, PASSED),
        Ok(())
    );
    // The curve is checked first.
    assert_eq!(
        validate_ec_key(NID_secp384r1, nid, KeyValidationPolicy::StandardCheck, failed),
        Err(KeyRejected::WrongAlgorithm)
    );
}

#[test]
fn public_key_sizes() {
    assert_eq!(compressed_public_key_size_bytes(256), 33);
    assert_eq!(uncompressed_public_key_size_bytes(256), 65);
    assert_eq!(compressed_public_key_size_bytes(521), 67);
    assert_eq!(uncompressed_public_key_size_bytes(521), 133);
    assert_eq!(uncompressed_public_key_size_bytes(384), 97);
}

#[test]
fn private_key_is_left_padded() {
    assert_eq!(marshal_private_key_to_buffer(4, &[1, 2]).unwrap(), vec![0, 0, 1, 2]);
    assert_eq!(marshal_private_key_to_buffer(3, &[0, 0, 0, 9]).unwrap(), vec![0, 0, 9]);
    assert_eq!(marshal_private_key_to_buffer(2, &[]).unwrap(), vec![0, 0]);
    assert!(marshal_private_key_to_buffer(2, &[1, 2, 3]).is_err());
    let scalar = vec![0xabu8; 65];
    let out = marshal_private_key_to_buffer(66, &scalar).unwrap();
    assert_eq!(out.len(), 66);
    assert_eq!(out[0], 0);
    assert_eq!(&out[1..], &scalar[..]);
}

fn coords(g: EcGroup, odd: bool) -> (Vec<u8>, Vec<u8>) {
    let w = g.field_len();
    let x: Vec<u8> = (0..w).map(|i| (i + 1) as u8).collect();
    let mut y: Vec<u8> = (0..w).map(|i| (200 - i) as u8).collect();
    y[w - 1] = if odd { 0x11 } else { 0x10 };
    (x, y)
}

#[test]
fn point_encoding_round_trip() {
    for g in GROUPS {
        for odd in [false, true] {
            let (x, y) = coords(g, odd);
            let p = EcPoint::from_coordinates(g, x.clone(), y.clone()).unwrap();
            assert_eq!(p.group(), g);
            let u = ec_point_to_bytes(&p, false);
            assert_eq!(u.len(), 1 + 2 * g.field_len());
            assert_eq!(u[0], 0x04);
            match parse_point_encoding(g, &u).unwrap() {
                EncodedPoint::Uncompressed { x: px, y: py } => {
                    assert_eq!(px, x);
                    assert_eq!(py, y);
                }
                EncodedPoint::Compressed { .. } => panic!("wrong form"),
            }
            let c = ec_point_to_bytes(&p, true);
            assert_eq!(c.len(), 1 + g.field_len());
            assert_eq!(c[0], if odd { 0x03 } else { 0x02 });
            match parse_point_encoding(g, &c).unwrap() {
                EncodedPoint::Compressed { x: px, y_is_odd } => {
                    assert_eq!(px, x);
                    assert_eq!(y_is_odd, odd);
                }
                EncodedPoint::Uncompressed { .. } => panic!("wrong form"),
            }
        }
    }
}

#[test]
fn bad_point_encodings_are_invalid_encoding() {
    let (x, y) = coords(EcGroup::P256, false);
    let p = EcPoint::from_coordinates(EcGroup::P256, x.clone(), y).unwrap();
    let mut u = ec_point_to_bytes(&p, false);
    assert!(matches!(
        parse_point_encoding(EcGroup::P384, &u),
        Err(KeyRejected::InvalidEncoding)
    ));
    u[0] = 0x05;
    assert!(matches!(
        parse_point_encoding(EcGroup::P256, &u),
        Err(KeyRejected::InvalidEncoding)
    ));
    u.pop();
    assert!(matches!(
        parse_point_encoding(EcGroup::P256, &u),
        Err(KeyRejected::InvalidEncoding)
    ));
    assert!(matches!(
        parse_point_encoding(EcGroup::P256, &[]),
        Err(KeyRejected::InvalidEncoding)
    ));
    assert!(matches!(
        EcPoint::from_coordinates(EcGroup::P256, x, vec![1u8; 31]),
        Err(KeyRejected::InvalidEncoding)
    ));
}
