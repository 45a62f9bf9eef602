use aws_lc_rs::ec::AlgorithmID;
use aws_lc_rs::ecdsa_signature::{ecdsa_asn1_to_fixed, ecdsa_fixed_to_asn1};

fn hex(s: &str) -> Vec<u8> {
    let clean: Vec<u8> = s.bytes().filter(|c| c.is_ascii_hexdigit()).collect();
    clean
        .chunks(2)
        .map(|p| u8::from_str_radix(std::str::from_utf8(p).unwrap(), 16).unwrap())
        .collect()
}

const KAT_SIG: &str = "30440220341f6779b75e98bb42e01095dd48356cbf9002dc704ac8bd2a8240b88d3796c60220555843b1b4e264fe6ffe6e2b705a376c05c09404303ffe5d2711f3e3b3a010a1";

#[test]
fn known_answer_signature_converts_both_ways() {
    let der = hex(KAT_SIG);
    let fixed = ecdsa_asn1_to_fixed(&AlgorithmID::ECDSA_P256, &der).unwrap();
    let expected = hex(
        "341f6779b75e98bb42e01095dd48356cbf9002dc704ac8bd2a8240b88d3796c6\
         555843b1b4e264fe6ffe6e2b705a376c05c09404303ffe5d2711f3e3b3a010a1",
    );
    assert_eq!(fixed, expected);
    assert_eq!(ecdsa_fixed_to_asn1(&AlgorithmID::ECDSA_P256, &fixed).unwrap(), der);
}

#[test]
fn short_r_is_left_padded() {
    // r has 31 bytes, s has 32.
    let mut der = vec![0x30, 0x43, 0x02, 0x1f];
    der.extend(std::iter::repeat(0x11).take(31));
    der.extend([0x02, 0x20]);
    der.extend(std::iter::repeat(0x22).take(32));
    let fixed = ecdsa_asn1_to_fixed(&AlgorithmID::ECDSA_P256, &der).unwrap();
    assert_eq!(fixed.len(), 64);
    assert_eq!(fixed[0], 0x00);
    assert_eq!(&fixed[1..32], &[0x11u8; 31][..]);
    assert_eq!(&fixed[32..], &[0x22u8; 32][..]);
    assert_eq!(ecdsa_fixed_to_asn1(&AlgorithmID::ECDSA_P256, &fixed).unwrap(), der);
}

#[test]
fn short_s_is_left_padded() {
    let der = vec![0x30, 0x06, 0x02, 0x01, 0x05, 0x02, 0x01, 0x07];
    let fixed = ecdsa_asn1_to_fixed(&AlgorithmID::ECDSA_P384, &der).unwrap();
    let mut expected = vec![0u8; 96];
    expected[47] = 5;
    expected[95] = 7;
    assert_eq!(fixed, expected);
}

#[test]
fn high_bit_components_get_sign_byte() {
    let mut fixed = vec![0x80u8; 32];
    fixed.extend(vec![0xffu8; 32]);
    let der = ecdsa_fixed_to_asn1(&AlgorithmID::ECDSA_P256K1, &fixed).unwrap();
    let mut expected = vec![0x30, 0x46, 0x02, 0x21, 0x00];
    expected.extend(vec![0x80u8; 32]);
    expected.extend([0x02, 0x21, 0x00]);
    expected.extend(vec![0xffu8; 32]);
    assert_eq!(der, expected);
    assert_eq!(ecdsa_asn1_to_fixed(&AlgorithmID::ECDSA_P256K1, &der).unwrap(), fixed);
}

#[test]
fn p521_uses_long_form_length() {
    let mut fixed = vec![0x01u8; 66];
    fixed.extend(vec![0x9au8; 66]);
    let der = ecdsa_fixed_to_asn1(&AlgorithmID::ECDSA_P521, &fixed).unwrap();
    assert_eq!(&der[..3], &[0x30, 0x81, 0x89]);
    assert_eq!(der.len(), 3 + 0x89);
    assert_eq!(ecdsa_asn1_to_fixed(&AlgorithmID::ECDSA_P521, &der).unwrap(), fixed);
}

#[test]
fn round_trip_every_curve() {
    for (alg, n) in [
        (AlgorithmID::ECDSA_P256, 32usize),
        (AlgorithmID::ECDSA_P384, 48),
        (AlgorithmID::ECDSA_P521, 66),
        (AlgorithmID::ECDSA_P256K1, 32),
    ] {
        assert_eq!(alg.private_key_size(), n);
        let mut fixed = vec![0u8; 2 * n];
        for (i, b) in fixed.iter_mut().enumerate() {
            *b = (i * 37 % 251) as u8;
        }
        fixed[0] = 0;
        fixed[1] = 0;
        let der = ecdsa_fixed_to_asn1(&alg, &fixed).unwrap();
        assert_eq!(ecdsa_asn1_to_fixed(&alg, &der).unwrap(), fixed);
    }
}

#[test]
fn fixed_with_wrong_length_is_rejected() {
    assert!(ecdsa_fixed_to_asn1(&AlgorithmID::ECDSA_P256, &[1u8; 63]).is_err());
    assert!(ecdsa_fixed_to_asn1(&AlgorithmID::ECDSA_P256, &[1u8; 96]).is_err());
    assert!(ecdsa_fixed_to_asn1(&AlgorithmID::ECDSA_P384, &[]).is_err());
}

#[test]
fn zero_component_encodes_but_does_not_decode() {
    let mut fixed = vec![0u8; 32];
    fixed.extend(vec![1u8; 32]);
    let der = ecdsa_fixed_to_asn1(&AlgorithmID::ECDSA_P256, &fixed).unwrap();
    assert_eq!(&der[..5], &[0x30, 0x25, 0x02, 0x01, 0x00]);
    assert!(ecdsa_asn1_to_fixed(&AlgorithmID::ECDSA_P256, &der).is_err());
}

#[test]
fn malformed_der_is_rejected() {
    let alg = AlgorithmID::ECDSA_P256;
    // Not a SEQUENCE.
    assert!(ecdsa_asn1_to_fixed(&alg, &[0x31, 0x06, 0x02, 0x01, 0x05, 0x02, 0x01, 0x07]).is_err());
    // Negative integer.
    assert!(ecdsa_asn1_to_fixed(&alg, &[0x30, 0x06, 0x02, 0x01, 0x85, 0x02, 0x01, 0x07]).is_err());
    // Superfluous leading zero.
    assert!(ecdsa_asn1_to_fixed(&alg, &[0x30, 0x07, 0x02, 0x02, 0x00, 0x05, 0x02, 0x01, 0x07]).is_err());
    // Non-minimal length.
    assert!(ecdsa_asn1_to_fixed(&alg, &[0x30, 0x81, 0x06, 0x02, 0x01, 0x05, 0x02, 0x01, 0x07]).is_err());
    // Trailing byte.
    assert!(ecdsa_asn1_to_fixed(&alg, &[0x30, 0x06, 0x02, 0x01, 0x05, 0x02, 0x01, 0x07, 0x00]).is_err());
    // Truncated.
    assert!(ecdsa_asn1_to_fixed(&alg, &[0x30, 0x06, 0x02, 0x01, 0x05, 0x02, 0x01]).is_err());
    assert!(ecdsa_asn1_to_fixed(&alg, &[]).is_err());
}

#[test]
fn component_too_long_for_curve_is_rejected() {
    let mut fixed = vec![0x11u8; 48];
    fixed.extend(vec![0x22u8; 48]);
    let der = ecdsa_fixed_to_asn1(&AlgorithmID::ECDSA_P384, &fixed).unwrap();
    assert!(ecdsa_asn1_to_fixed(&AlgorithmID::ECDSA_P256, &der).is_err());
    assert_eq!(ecdsa_asn1_to_fixed(&AlgorithmID::ECDSA_P521, &der).unwrap().len(), 132);
}
