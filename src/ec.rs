use vstd::prelude::*;

use crate::ecdsa_signature::{pad_left, strip_leading_zeros};
use crate::error::{KeyRejected, Unspecified};
use crate::fips::{check_passes, consistency_verdict, CheckOutcome, KeyValidationPolicy};

verus! {

/// The ECDSA algorithms that sign and verify, each on one curve.
#[allow(non_camel_case_types)]
#[derive(Clone, Copy, Debug, PartialEq, Eq, Structural)]
pub enum AlgorithmID {
    ECDSA_P256,
    ECDSA_P384,
    ECDSA_P521,
    ECDSA_P256K1,
}

/// Byte length of a field element, and of a private scalar, on the algorithm's curve.
pub open spec fn spec_private_key_size(alg: AlgorithmID) -> nat {
    match alg {
        AlgorithmID::ECDSA_P256 => 32,
        AlgorithmID::ECDSA_P384 => 48,
        AlgorithmID::ECDSA_P521 => 66,
        AlgorithmID::ECDSA_P256K1 => 32,
    }
}

/// The engine's identifier of the curve P-224.
#[allow(non_upper_case_globals)]
pub const NID_secp224r1: i32 = 713;

/// The engine's identifier of the curve P-256.
#[allow(non_upper_case_globals)]
pub const NID_X9_62_prime256v1: i32 = 415;

/// The engine's identifier of the curve P-384.
#[allow(non_upper_case_globals)]
pub const NID_secp384r1: i32 = 715;

/// The engine's identifier of the curve P-521.
#[allow(non_upper_case_globals)]
pub const NID_secp521r1: i32 = 716;

/// The engine's identifier of the curve secp256k1.
#[allow(non_upper_case_globals)]
pub const NID_secp256k1: i32 = 714;

/// The curve groups that the engine offers.
#[derive(Clone, Copy, Debug, PartialEq, Eq, Structural)]
pub enum EcGroup {
    P224,
    P256,
    P384,
    P521,
    Secp256k1,
}

/// The engine's identifier of a group.
pub open spec fn spec_group_nid(g: EcGroup) -> i32 {
    match g {
        EcGroup::P224 => NID_secp224r1,
        EcGroup::P256 => NID_X9_62_prime256v1,
        EcGroup::P384 => NID_secp384r1,
        EcGroup::P521 => NID_secp521r1,
        EcGroup::Secp256k1 => NID_secp256k1,
    }
}

/// Byte length of a field element of a group.
pub open spec fn spec_field_len(g: EcGroup) -> nat {
    match g {
        EcGroup::P224 => 28,
        EcGroup::P256 => 32,
        EcGroup::P384 => 48,
        EcGroup::P521 => 66,
        EcGroup::Secp256k1 => 32,
    }
}

impl EcGroup {
    /// The engine's identifier of this group.
    pub fn nid(&self) -> (r: i32)
        ensures
            r == spec_group_nid(*self),
    {
        match self {
            EcGroup::P224 => NID_secp224r1,
            EcGroup::P256 => NID_X9_62_prime256v1,
            EcGroup::P384 => NID_secp384r1,
            EcGroup::P521 => NID_secp521r1,
            EcGroup::Secp256k1 => NID_secp256k1,
        }
    }

    /// Byte length of a field element of this group.
    pub fn field_len(&self) -> (r: usize)
        ensures
            r == spec_field_len(*self),
    {
        match self {
            EcGroup::P224 => 28,
            EcGroup::P256 => 32,
            EcGroup::P384 => 48,
            EcGroup::P521 => 66,
            EcGroup::Secp256k1 => 32,
        }
    }
}

/// The group whose engine identifier is `nid`, if any.
pub open spec fn spec_group_from_nid(nid: i32) -> Option<EcGroup> {
    if nid == NID_secp224r1 {
        Some(EcGroup::P224)
    } else if nid == NID_X9_62_prime256v1 {
        Some(EcGroup::P256)
    } else if nid == NID_secp384r1 {
        Some(EcGroup::P384)
    } else if nid == NID_secp521r1 {
        Some(EcGroup::P521)
    } else if nid == NID_secp256k1 {
        Some(EcGroup::Secp256k1)
    } else {
        None
    }
}

/// The group with the engine's identifier `nid`; an unknown identifier fails.
pub fn ec_group_from_nid(nid: i32) -> (r: Result<EcGroup, Unspecified>)
    ensures
        match r {
            Ok(g) => spec_group_from_nid(nid) == Some(g),
            Err(_) => spec_group_from_nid(nid) is None,
        },
{
    if nid == NID_secp224r1 {
        Ok(EcGroup::P224)
    } else if nid == NID_X9_62_prime256v1 {
        Ok(EcGroup::P256)
    } else if nid == NID_secp384r1 {
        Ok(EcGroup::P384)
    } else if nid == NID_secp521r1 {
        Ok(EcGroup::P521)
    } else if nid == NID_secp256k1 {
        Ok(EcGroup::Secp256k1)
    } else {
        Err(Unspecified)
    }
}

/// The group on which an algorithm works.
pub open spec fn spec_algorithm_group(alg: AlgorithmID) -> EcGroup {
    match alg {
        AlgorithmID::ECDSA_P256 => EcGroup::P256,
        AlgorithmID::ECDSA_P384 => EcGroup::P384,
        AlgorithmID::ECDSA_P521 => EcGroup::P521,
        AlgorithmID::ECDSA_P256K1 => EcGroup::Secp256k1,
    }
}

impl AlgorithmID {
    /// The group on which this algorithm works.
    pub fn group(&self) -> (r: EcGroup)
        ensures
            r == spec_algorithm_group(*self),
    {
        match self {
            AlgorithmID::ECDSA_P256 => EcGroup::P256,
            AlgorithmID::ECDSA_P384 => EcGroup::P384,
            AlgorithmID::ECDSA_P521 => EcGroup::P521,
            AlgorithmID::ECDSA_P256K1 => EcGroup::Secp256k1,
        }
    }

    /// The engine's identifier of this algorithm's curve.
    pub fn nid(&self) -> (r: i32)
        ensures
            r == spec_group_nid(spec_algorithm_group(*self)),
    {
        self.group().nid()
    }

    /// Byte length of a field element, and of a private scalar, on the algorithm's curve.
    pub fn private_key_size(&self) -> (r: usize)
        ensures
            r == spec_private_key_size(*self),
    {
        match self {
            AlgorithmID::ECDSA_P256 => 32,
            AlgorithmID::ECDSA_P384 => 48,
            AlgorithmID::ECDSA_P521 => 66,
            AlgorithmID::ECDSA_P256K1 => 32,
        }
    }
}


/// Checks that a key's curve, given by the engine's identifier `key_nid`, is the one
/// expected.
pub fn verify_ec_key_nid(key_nid: i32, expected_curve_nid: i32) -> (r: Result<(), KeyRejected>)
    ensures
        r == if key_nid == expected_curve_nid {
            Ok(())
        } else {
            Err(KeyRejected::WrongAlgorithm)
        },
{
    if key_nid != expected_curve_nid {
        return Err(KeyRejected::WrongAlgorithm);
    }
    Ok(())
}

/// The outcome of validating a key on curve `key_nid` against the expected curve, given the
/// outcome of the engine's consistency check on it.
pub open spec fn spec_validate_key(
    key_nid: i32,
    expected_curve_nid: i32,
    policy: KeyValidationPolicy,
    check: CheckOutcome,
) -> Result<(), KeyRejected> {
    if key_nid != expected_curve_nid {
        Err(KeyRejected::WrongAlgorithm)
    } else if !check_passes(policy, check) {
        Err(KeyRejected::InconsistentComponents)
    } else {
        Ok(())
    }
}

/// Validates a key: first its curve must be the one expected (`WrongAlgorithm` otherwise),
/// then the engine's consistency check must pass under `policy`
/// (`InconsistentComponents` otherwise).
pub fn validate_ec_key(
    key_nid: i32,
    expected_curve_nid: i32,
    policy: KeyValidationPolicy,
    check: CheckOutcome,
) -> (r: Result<(), KeyRejected>)
    ensures
        r == spec_validate_key(key_nid, expected_curve_nid, policy, check),
{
    verify_ec_key_nid(key_nid, expected_curve_nid)?;
    consistency_verdict(policy, check)
}

/// A key built on one group and validated against another group's identifier is always
/// refused as `WrongAlgorithm`, whatever its consistency check said.
pub proof fn lemma_curve_mismatch_rejected(
    key_group: EcGroup,
    expected_group: EcGroup,
    policy: KeyValidationPolicy,
    check: CheckOutcome,
)
    requires
        key_group != expected_group,
    ensures
        spec_validate_key(spec_group_nid(key_group), spec_group_nid(expected_group), policy, check)
            == Err::<(), KeyRejected>(KeyRejected::WrongAlgorithm),
{
}

/// Length of a compressed point encoding on a curve whose field has `curve_field_bits` bits.
pub fn compressed_public_key_size_bytes(curve_field_bits: usize) -> (r: usize)
    requires
        curve_field_bits <= usize::MAX - 7,
    ensures
        r == 1 + (curve_field_bits + 7) / 8,
{
    1 + (curve_field_bits + 7) / 8
}

/// Length of an uncompressed point encoding on a curve whose field has `curve_field_bits` bits.
pub fn uncompressed_public_key_size_bytes(curve_field_bits: usize) -> (r: usize)
    requires
        curve_field_bits <= usize::MAX - 7,
    ensures
        r == 1 + 2 * ((curve_field_bits + 7) / 8),
{
    1 + 2 * ((curve_field_bits + 7) / 8)
}

/// The private scalar, given as big-endian bytes, left-padded with zeros to exactly
/// `private_size` bytes. Fails where the scalar needs more bytes than that.
pub fn marshal_private_key_to_buffer(private_size: usize, scalar: &[u8]) -> (r: Result<
    Vec<u8>,
    Unspecified,
>)
    ensures
        match r {
            Ok(b) => strip_leading_zeros(scalar@).len() <= private_size && b@ == pad_left(
                strip_leading_zeros(scalar@),
                private_size as nat,
            ),
            Err(_) => strip_leading_zeros(scalar@).len() > private_size,
        },
{
    let mut start: usize = 0;
    assert(scalar@.skip(0) =~= scalar@);
    while start < scalar.len() && scalar[start] == 0
        invariant
            start <= scalar@.len(),
            strip_leading_zeros(scalar@.skip(start as int)) == strip_leading_zeros(scalar@),
        decreases scalar@.len() - start,
    {
        assert(scalar@.skip(start as int).drop_first() =~= scalar@.skip(start + 1));
        start = start + 1;
    }
    let len = scalar.len() - start;
    if len > private_size {
        return Err(Unspecified);
    }
    let mut buffer: Vec<u8> = Vec::new();
    let mut i: usize = 0;
    while i < private_size - len
        invariant
            i <= private_size - len,
            buffer@ == Seq::new(i as nat, |j: int| 0u8),
        decreases private_size - len - i,
    {
        buffer.push(0u8);
        i = i + 1;
        assert(buffer@ =~= Seq::new(i as nat, |j: int| 0u8));
    }
    let mut k: usize = start;
    while k < scalar.len()
        invariant
            start <= k <= scalar@.len(),
            buffer@ == Seq::new((private_size - len) as nat, |j: int| 0u8) + scalar@.subrange(
                start as int,
                k as int,
            ),
        decreases scalar@.len() - k,
    {
        buffer.push(scalar[k]);
        k = k + 1;
        assert(buffer@ =~= Seq::new((private_size - len) as nat, |j: int| 0u8) + scalar@.subrange(
            start as int,
            k as int,
        ));
    }
    assert(scalar@.subrange(start as int, scalar@.len() as int) =~= scalar@.skip(start as int));
    Ok(buffer)
}


/// An affine point of a group, with its coordinates as big-endian bytes of the group's
/// field length.
pub struct EcPoint {
    group: EcGroup,
    x: Vec<u8>,
    y: Vec<u8>,
}

impl View for EcPoint {
    type V = (EcGroup, Seq<u8>, Seq<u8>);

    closed spec fn view(&self) -> (EcGroup, Seq<u8>, Seq<u8>) {
        (self.group, self.x@, self.y@)
    }
}

impl EcPoint {
    #[verifier::type_invariant]
    spec fn coordinates_fit(&self) -> bool {
        &&& self.x@.len() == spec_field_len(self.group)
        &&& self.y@.len() == spec_field_len(self.group)
    }

    /// The point of `group` with coordinates `x` and `y`; fails with `InvalidEncoding` where a
    /// coordinate does not have the group's field length.
    pub fn from_coordinates(group: EcGroup, x: Vec<u8>, y: Vec<u8>) -> (r: Result<
        EcPoint,
        KeyRejected,
    >)
        ensures
            match r {
                Ok(p) => p@ == (group, x@, y@),
                Err(e) => e == KeyRejected::InvalidEncoding && (x@.len() != spec_field_len(group)
                    || y@.len() != spec_field_len(group)),
            },
    {
        let w = group.field_len();
        if x.len() != w || y.len() != w {
            return Err(KeyRejected::InvalidEncoding);
        }
        Ok(EcPoint { group, x, y })
    }

    /// The group of this point.
    pub fn group(&self) -> (r: EcGroup)
        ensures
            r == self@.0,
    {
        self.group
    }
}

/// The octet encoding of the point with coordinates `x`, `y`: `0x04 || X || Y` uncompressed;
/// compressed, `0x02` (`y` even) or `0x03` (`y` odd) followed by `X`.
pub open spec fn spec_point_encoding(x: Seq<u8>, y: Seq<u8>, compressed: bool) -> Seq<u8> {
    if compressed {
        seq![if y.last() % 2 == 1 { 0x03u8 } else { 0x02u8 }] + x
    } else {
        seq![0x04u8] + x + y
    }
}

/// Encodes a point, uncompressed or compressed.
pub fn ec_point_to_bytes(point: &EcPoint, compressed: bool) -> (r: Vec<u8>)
    ensures
        point@.1.len() == spec_field_len(point@.0),
        point@.2.len() == spec_field_len(point@.0),
        r@ == spec_point_encoding(point@.1, point@.2, compressed),
        r@.len() == if compressed {
            1 + spec_field_len(point@.0)
        } else {
            1 + 2 * spec_field_len(point@.0)
        },
{
    proof {
        use_type_invariant(point);
    }
    let w = point.x.len();
    let mut out: Vec<u8> = Vec::new();
    if compressed {
        let odd = point.y[w - 1] % 2 == 1;
        out.push(if odd { 0x03u8 } else { 0x02u8 });
    } else {
        out.push(0x04u8);
    }
    let ghost first = out@[0];
    let mut i: usize = 0;
    while i < w
        invariant
            w == point.x@.len(),
            i <= w,
            out@ == seq![first] + point.x@.take(i as int),
        decreases w - i,
    {
        out.push(point.x[i]);
        i = i + 1;
        assert(out@ =~= seq![first] + point.x@.take(i as int));
    }
    assert(point.x@.take(w as int) =~= point.x@);
    if !compressed {
        let mut j: usize = 0;
        while j < w
            invariant
                w == point.y@.len(),
                w == point.x@.len(),
                j <= w,
                out@ == seq![first] + point.x@ + point.y@.take(j as int),
            decreases w - j,
        {
            out.push(point.y[j]);
            j = j + 1;
            assert(out@ =~= seq![first] + point.x@ + point.y@.take(j as int));
        }
        assert(point.y@.take(w as int) =~= point.y@);
    }
    out
}

/// A point's octet encoding, read without the engine: the coordinates it carries.
pub enum EncodedPoint {
    /// `0x04 || X || Y`.
    Uncompressed { x: Vec<u8>, y: Vec<u8> },
    /// `0x02 || X` or `0x03 || X`; `y_is_odd` says which.
    Compressed { x: Vec<u8>, y_is_odd: bool },
}

/// What an encoding says, as the prefix byte, `X`, and `Y` (empty when compressed).
pub open spec fn spec_encoded_point(e: EncodedPoint) -> (u8, Seq<u8>, Seq<u8>) {
    match e {
        EncodedPoint::Uncompressed { x, y } => (0x04u8, x@, y@),
        EncodedPoint::Compressed { x, y_is_odd } => (
            if y_is_odd {
                0x03u8
            } else {
                0x02u8
            },
            x@,
            Seq::empty(),
        ),
    }
}

/// How the bytes `b` read as a point encoding on `group`: prefix, `X`, `Y`; None where they
/// have a wrong length or prefix.
pub open spec fn spec_parse_point(group: EcGroup, b: Seq<u8>) -> Option<(u8, Seq<u8>, Seq<u8>)> {
    let w = spec_field_len(group) as int;
    if b.len() == 1 + 2 * w && b[0] == 0x04 {
        Some((0x04u8, b.subrange(1, 1 + w), b.subrange(1 + w, 1 + 2 * w)))
    } else if b.len() == 1 + w && (b[0] == 0x02 || b[0] == 0x03) {
        Some((b[0], b.subrange(1, 1 + w), Seq::empty()))
    } else {
        None
    }
}

fn copy_range(b: &[u8], start: usize, end: usize) -> (r: Vec<u8>)
    requires
        start <= end <= b@.len(),
    ensures
        r@ == b@.subrange(start as int, end as int),
{
    let mut v: Vec<u8> = Vec::new();
    let mut i: usize = start;
    while i < end
        invariant
            start <= i <= end <= b@.len(),
            v@ == b@.subrange(start as int, i as int),
        decreases end - i,
    {
        v.push(b[i]);
        i = i + 1;
        assert(v@ =~= b@.subrange(start as int, i as int));
    }
    v
}

/// Reads an octet-encoded point of `group`: its form and coordinates. Wrong lengths and
/// unknown prefixes fail with `InvalidEncoding`. That the point lies on the curve, and the
/// `Y` of a compressed encoding, are for the engine to establish.
pub fn parse_point_encoding(group: EcGroup, bytes: &[u8]) -> (r: Result<EncodedPoint, KeyRejected>)
    ensures
        match r {
            Ok(e) => spec_parse_point(group, bytes@) == Some(spec_encoded_point(e)),
            Err(e) => e == KeyRejected::InvalidEncoding && spec_parse_point(group, bytes@) is None,
        },
{
    let w = group.field_len();
    if bytes.len() == 1 + 2 * w && bytes[0] == 0x04 {
        let x = copy_range(bytes, 1, 1 + w);
        let y = copy_range(bytes, 1 + w, 1 + 2 * w);
        Ok(EncodedPoint::Uncompressed { x, y })
    } else if bytes.len() == 1 + w && (bytes[0] == 0x02 || bytes[0] == 0x03) {
        let x = copy_range(bytes, 1, 1 + w);
        Ok(EncodedPoint::Compressed { x, y_is_odd: bytes[0] == 0x03 })
    } else {
        Err(KeyRejected::InvalidEncoding)
    }
}

/// Reading back a point's encoding gives the point's coordinates: both of them from the
/// uncompressed form; `X` and the parity of `Y` from the compressed form.
pub proof fn lemma_point_encoding_round_trip(group: EcGroup, x: Seq<u8>, y: Seq<u8>)
    requires
        x.len() == spec_field_len(group),
        y.len() == spec_field_len(group),
    ensures
        spec_parse_point(group, spec_point_encoding(x, y, false)) == Some((0x04u8, x, y)),
        spec_parse_point(group, spec_point_encoding(x, y, true)) == Some(
            (if y.last() % 2 == 1 { 0x03u8 } else { 0x02u8 }, x, Seq::<u8>::empty()),
        ),
{
    let w = spec_field_len(group) as int;
    let u = spec_point_encoding(x, y, false);
    let c = spec_point_encoding(x, y, true);
    assert(u.subrange(1, 1 + w) =~= x);
    assert(u.subrange(1 + w, 1 + 2 * w) =~= y);
    assert(c.subrange(1, 1 + w) =~= x);
}

} // verus!
