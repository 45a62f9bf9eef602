use vstd::prelude::*;

use crate::ec::{spec_private_key_size, AlgorithmID};
use crate::error::Unspecified;

verus! {

/// `p` is a prefix of `s`.
pub open spec fn is_prefix(p: Seq<u8>, s: Seq<u8>) -> bool {
    p.len() <= s.len() && s.take(p.len() as int) == p
}

/// `m` is the minimal big-endian form of a positive integer: not empty, no leading zero.
pub open spec fn is_minimal_positive(m: Seq<u8>) -> bool {
    m.len() > 0 && m[0] != 0
}

/// `x` without its leading zero bytes.
pub open spec fn strip_leading_zeros(x: Seq<u8>) -> Seq<u8>
    decreases x.len(),
{
    if x.len() > 0 && x[0] == 0 {
        strip_leading_zeros(x.drop_first())
    } else {
        x
    }
}

/// `m` left-padded with zero bytes to length `n`.
pub open spec fn pad_left(m: Seq<u8>, n: nat) -> Seq<u8> {
    Seq::new((n - m.len()) as nat, |i: int| 0u8) + m
}

/// The DER length octets for a length below 256: one byte below 128, else `0x81` and one byte.
pub open spec fn der_length(n: nat) -> Seq<u8> {
    if n < 128 {
        seq![n as u8]
    } else {
        seq![0x81u8, n as u8]
    }
}

/// The content octets of the DER INTEGER whose value has the big-endian magnitude `m`
/// (`m` without leading zeros; empty for zero): a zero byte goes first where the
/// value would otherwise read as negative.
pub open spec fn der_integer_content(m: Seq<u8>) -> Seq<u8> {
    if m.len() == 0 {
        seq![0u8]
    } else if m[0] >= 0x80 {
        seq![0u8] + m
    } else {
        m
    }
}

/// The DER INTEGER (tag, length, content) whose value has the magnitude `m`.
pub open spec fn der_integer(m: Seq<u8>) -> Seq<u8> {
    seq![0x02u8] + der_length(der_integer_content(m).len()) + der_integer_content(m)
}

/// The DER `SEQUENCE { INTEGER r, INTEGER s }` of an ECDSA signature with magnitudes `r`, `s`.
pub open spec fn der_signature(r: Seq<u8>, s: Seq<u8>) -> Seq<u8> {
    let body = der_integer(r) + der_integer(s);
    seq![0x30u8] + der_length(body.len()) + body
}

/// The signature's body is short enough for the length forms above.
pub open spec fn der_fits(r: Seq<u8>, s: Seq<u8>) -> bool {
    der_integer(r).len() + der_integer(s).len() < 256
}

/// `d` is the DER encoding of the ECDSA signature with positive components `r` and `s`.
pub open spec fn is_der_signature_of(d: Seq<u8>, r: Seq<u8>, s: Seq<u8>) -> bool {
    &&& is_minimal_positive(r)
    &&& is_minimal_positive(s)
    &&& der_fits(r, s)
    &&& d == der_signature(r, s)
}

/// The fixed-width form, for components of `n` bytes, of the DER signature `d`: both
/// components left-padded to `n` bytes and joined. None where `d` is no DER signature with
/// positive components, or a component does not fit in `n` bytes.
pub open spec fn fixed_of_der(d: Seq<u8>, n: nat) -> Option<Seq<u8>> {
    if exists|r: Seq<u8>, s: Seq<u8>|
        is_der_signature_of(d, r, s) && r.len() <= n && s.len() <= n {
        let (r, s) = choose|r: Seq<u8>, s: Seq<u8>|
            is_der_signature_of(d, r, s) && r.len() <= n && s.len() <= n;
        Some(pad_left(r, n) + pad_left(s, n))
    } else {
        None
    }
}

/// The DER form of the fixed-width signature `f` with components of `n` bytes: each half
/// read as a big-endian unsigned integer. None where `f` is not `2 * n` bytes long.
pub open spec fn der_of_fixed(f: Seq<u8>, n: nat) -> Option<Seq<u8>> {
    if f.len() == 2 * n {
        Some(
            der_signature(
                strip_leading_zeros(f.take(n as int)),
                strip_leading_zeros(f.skip(n as int)),
            ),
        )
    } else {
        None
    }
}

proof fn lemma_strip_leading_zeros(x: Seq<u8>)
    ensures
        strip_leading_zeros(x).len() <= x.len(),
        strip_leading_zeros(x).len() == 0 || strip_leading_zeros(x)[0] != 0,
        pad_left(strip_leading_zeros(x), x.len()) == x,
    decreases x.len(),
{
    if x.len() > 0 && x[0] == 0 {
        lemma_strip_leading_zeros(x.drop_first());
        let t = strip_leading_zeros(x.drop_first());
        assert(pad_left(t, x.len()) =~= seq![0u8] + pad_left(t, (x.len() - 1) as nat));
        assert(x =~= seq![0u8] + x.drop_first());
    } else {
        assert(pad_left(x, x.len()) =~= x);
    }
}

proof fn lemma_strip_pad(m: Seq<u8>, n: nat)
    requires
        is_minimal_positive(m),
        m.len() <= n,
    ensures
        strip_leading_zeros(pad_left(m, n)) == m,
    decreases n - m.len(),
{
    let p = pad_left(m, n);
    if m.len() == n {
        assert(p =~= m);
    } else {
        assert(p.drop_first() =~= pad_left(m, (n - 1) as nat));
        lemma_strip_pad(m, (n - 1) as nat);
    }
}

proof fn lemma_der_length_unique(s: Seq<u8>, a: nat, b: nat)
    requires
        a < 256,
        b < 256,
        is_prefix(der_length(a), s),
        is_prefix(der_length(b), s),
    ensures
        a == b,
{
    assert(s[0] == der_length(a)[0]);
    assert(s[0] == der_length(b)[0]);
    if a >= 128 && b >= 128 {
        assert(s[1] == der_length(a)[1]);
        assert(s[1] == der_length(b)[1]);
    }
}

proof fn lemma_der_integer_unique(s: Seq<u8>, a: Seq<u8>, b: Seq<u8>)
    requires
        is_minimal_positive(a),
        is_minimal_positive(b),
        der_integer_content(a).len() < 256,
        der_integer_content(b).len() < 256,
        is_prefix(der_integer(a), s),
        is_prefix(der_integer(b), s),
    ensures
        a == b,
{
    let ca = der_integer_content(a);
    let cb = der_integer_content(b);
    let t = s.drop_first();
    assert(der_integer(a).drop_first() =~= der_length(ca.len()) + ca);
    assert(der_integer(b).drop_first() =~= der_length(cb.len()) + cb);
    let ia = der_integer(a);
    let ib = der_integer(b);
    assert(s.take(ia.len() as int) == ia);
    assert(s.take(ib.len() as int) == ib);
    assert(forall|i: int| 0 <= i < ia.len() ==> s[i] == ia[i]) by {
        assert forall|i: int| 0 <= i < ia.len() implies s[i] == ia[i] by {
            assert(s.take(ia.len() as int)[i] == s[i]);
        }
    }
    assert(forall|i: int| 0 <= i < ib.len() ==> s[i] == ib[i]) by {
        assert forall|i: int| 0 <= i < ib.len() implies s[i] == ib[i] by {
            assert(s.take(ib.len() as int)[i] == s[i]);
        }
    }
    assert(t.take(ia.len() - 1) =~= ia.drop_first());
    assert(t.take(ib.len() - 1) =~= ib.drop_first());
    assert(is_prefix(der_length(ca.len()), t)) by {
        assert(t.take(der_length(ca.len()).len() as int) =~= der_length(ca.len()));
    }
    assert(is_prefix(der_length(cb.len()), t)) by {
        assert(t.take(der_length(cb.len()).len() as int) =~= der_length(cb.len()));
    }
    lemma_der_length_unique(t, ca.len(), cb.len());
    let h = der_length(ca.len()).len();
    assert(ca =~= t.subrange(h as int, (h + ca.len()) as int));
    assert(cb =~= t.subrange(h as int, (h + cb.len()) as int));
    if ca[0] == 0 {
        assert(a =~= ca.drop_first());
        assert(b =~= cb.drop_first());
    } else {
        assert(a =~= ca);
        assert(b =~= cb);
    }
}

/// A DER signature determines its components.
pub proof fn lemma_der_signature_injective(d: Seq<u8>, r1: Seq<u8>, s1: Seq<u8>, r2: Seq<u8>, s2: Seq<u8>)
    requires
        is_der_signature_of(d, r1, s1),
        is_der_signature_of(d, r2, s2),
    ensures
        r1 == r2,
        s1 == s2,
{
    let b1 = der_integer(r1) + der_integer(s1);
    let b2 = der_integer(r2) + der_integer(s2);
    let t = d.drop_first();
    assert(t =~= der_length(b1.len()) + b1);
    assert(t =~= der_length(b2.len()) + b2);
    assert(t.take(der_length(b1.len()).len() as int) =~= der_length(b1.len()));
    assert(t.take(der_length(b2.len()).len() as int) =~= der_length(b2.len()));
    lemma_der_length_unique(t, b1.len(), b2.len());
    let h = der_length(b1.len()).len();
    let u = t.skip(h as int);
    assert(u =~= b1);
    assert(u =~= b2);
    assert(u.take(der_integer(r1).len() as int) =~= der_integer(r1));
    assert(u.take(der_integer(r2).len() as int) =~= der_integer(r2));
    lemma_der_integer_unique(u, r1, r2);
    let v = u.skip(der_integer(r1).len() as int);
    assert(v =~= der_integer(s1));
    assert(v =~= der_integer(s2));
    assert(v.take(v.len() as int) =~= v);
    lemma_der_integer_unique(v, s1, s2);
}


proof fn lemma_der_fits_small(r: Seq<u8>, s: Seq<u8>)
    requires
        r.len() <= 66,
        s.len() <= 66,
    ensures
        der_fits(r, s),
        der_integer(r).len() <= 69,
        der_integer(s).len() <= 69,
{
}

/// For every curve, a fixed-width signature whose two components are positive survives
/// the trip to DER and back unchanged.
pub proof fn lemma_fixed_der_round_trip(alg: AlgorithmID, f: Seq<u8>)
    requires
        f.len() == 2 * spec_private_key_size(alg),
        strip_leading_zeros(f.take(spec_private_key_size(alg) as int)).len() > 0,
        strip_leading_zeros(f.skip(spec_private_key_size(alg) as int)).len() > 0,
    ensures
        der_of_fixed(f, spec_private_key_size(alg)) matches Some(d) && fixed_of_der(
            d,
            spec_private_key_size(alg),
        ) == Some(f),
{
    let n = spec_private_key_size(alg);
    let hr = f.take(n as int);
    let hs = f.skip(n as int);
    let r = strip_leading_zeros(hr);
    let s = strip_leading_zeros(hs);
    lemma_strip_leading_zeros(hr);
    lemma_strip_leading_zeros(hs);
    lemma_der_fits_small(r, s);
    let d = der_signature(r, s);
    assert(is_der_signature_of(d, r, s));
    assert(exists|r1: Seq<u8>, s1: Seq<u8>|
        is_der_signature_of(d, r1, s1) && r1.len() <= n && s1.len() <= n);
    let (r2, s2) = choose|r1: Seq<u8>, s1: Seq<u8>|
        is_der_signature_of(d, r1, s1) && r1.len() <= n && s1.len() <= n;
    lemma_der_signature_injective(d, r, s, r2, s2);
    assert(hr + hs =~= f);
}

/// For every curve, a DER signature that has a fixed-width form survives the trip to the
/// fixed-width form and back unchanged.
pub proof fn lemma_der_fixed_round_trip(alg: AlgorithmID, d: Seq<u8>)
    requires
        fixed_of_der(d, spec_private_key_size(alg)) is Some,
    ensures
        der_of_fixed(fixed_of_der(d, spec_private_key_size(alg))->Some_0, spec_private_key_size(alg))
            == Some(d),
{
    let n = spec_private_key_size(alg);
    let (r, s) = choose|r1: Seq<u8>, s1: Seq<u8>|
        is_der_signature_of(d, r1, s1) && r1.len() <= n && s1.len() <= n;
    let f = pad_left(r, n) + pad_left(s, n);
    assert(f.take(n as int) =~= pad_left(r, n));
    assert(f.skip(n as int) =~= pad_left(s, n));
    lemma_strip_pad(r, n);
    lemma_strip_pad(s, n);
}


fn push_range(out: &mut Vec<u8>, b: &[u8], start: usize, end: usize)
    requires
        start <= end <= b@.len(),
    ensures
        final(out)@ == old(out)@ + b@.subrange(start as int, end as int),
{
    let mut i: usize = start;
    while i < end
        invariant
            start <= i <= end <= b@.len(),
            out@ == old(out)@ + b@.subrange(start as int, i as int),
        decreases end - i,
    {
        out.push(b[i]);
        i = i + 1;
        assert(out@ =~= old(out)@ + b@.subrange(start as int, i as int));
    }
}

fn push_zeros(out: &mut Vec<u8>, k: usize)
    ensures
        final(out)@ == old(out)@ + Seq::new(k as nat, |i: int| 0u8),
{
    let mut i: usize = 0;
    while i < k
        invariant
            i <= k,
            out@ == old(out)@ + Seq::new(i as nat, |j: int| 0u8),
        decreases k - i,
    {
        out.push(0u8);
        i = i + 1;
        assert(out@ =~= old(out)@ + Seq::new(i as nat, |j: int| 0u8));
    }
}

fn push_der_length(out: &mut Vec<u8>, n: usize)
    requires
        n < 256,
    ensures
        final(out)@ == old(out)@ + der_length(n as nat),
{
    if n < 128 {
        out.push(n as u8);
    } else {
        out.push(0x81u8);
        out.push(n as u8);
    }
    assert(out@ =~= old(out)@ + der_length(n as nat));
}

fn der_length_len(n: usize) -> (r: usize)
    requires
        n < 256,
    ensures
        r == der_length(n as nat).len(),
{
    if n < 128 {
        1
    } else {
        2
    }
}

/// Index of the first non-zero byte of `b[start..end]`, or `end`.
fn skip_leading_zeros(b: &[u8], start: usize, end: usize) -> (i: usize)
    requires
        start <= end <= b@.len(),
    ensures
        start <= i <= end,
        b@.subrange(i as int, end as int) == strip_leading_zeros(b@.subrange(start as int, end as int)),
{
    let mut i: usize = start;
    while i < end && b[i] == 0
        invariant
            start <= i <= end <= b@.len(),
            strip_leading_zeros(b@.subrange(i as int, end as int)) == strip_leading_zeros(
                b@.subrange(start as int, end as int),
            ),
        decreases end - i,
    {
        assert(b@.subrange(i as int, end as int).drop_first() =~= b@.subrange(i + 1, end as int));
        i = i + 1;
    }
    i
}

/// Length of the content octets of the DER INTEGER with magnitude `b[start..end]`.
fn der_integer_content_len(b: &[u8], start: usize, end: usize) -> (r: usize)
    requires
        start <= end <= b@.len(),
        end - start < 255,
    ensures
        r == der_integer_content(b@.subrange(start as int, end as int)).len(),
{
    if start == end {
        1
    } else if b[start] >= 0x80 {
        end - start + 1
    } else {
        end - start
    }
}

/// Appends the DER INTEGER with magnitude `b[start..end]`.
fn push_der_integer(out: &mut Vec<u8>, b: &[u8], start: usize, end: usize)
    requires
        start <= end <= b@.len(),
        end - start < 255,
    ensures
        final(out)@ == old(out)@ + der_integer(b@.subrange(start as int, end as int)),
{
    let ghost m = b@.subrange(start as int, end as int);
    let cl = der_integer_content_len(b, start, end);
    out.push(0x02u8);
    push_der_length(out, cl);
    if start == end || b[start] >= 0x80 {
        out.push(0u8);
    }
    push_range(out, b, start, end);
    assert(out@ =~= old(out)@ + der_integer(m));
}

/// A DER signature whose components are shorter than the field length converts to the
/// fixed-width form with each component right-aligned behind leading zero bytes.
pub proof fn lemma_short_component_padded(alg: AlgorithmID, d: Seq<u8>, r: Seq<u8>, s: Seq<u8>)
    requires
        is_der_signature_of(d, r, s),
        r.len() <= spec_private_key_size(alg),
        s.len() <= spec_private_key_size(alg),
    ensures
        fixed_of_der(d, spec_private_key_size(alg)) == Some(
            pad_left(r, spec_private_key_size(alg)) + pad_left(s, spec_private_key_size(alg)),
        ),
        forall|i: int|
            0 <= i < spec_private_key_size(alg) - r.len() ==> (#[trigger] fixed_of_der(
                d,
                spec_private_key_size(alg),
            )->Some_0[i]) == 0,
        forall|i: int|
            spec_private_key_size(alg) <= i < 2 * spec_private_key_size(alg) - s.len() ==> (
            #[trigger] fixed_of_der(d, spec_private_key_size(alg))->Some_0[i]) == 0,
{
    let n = spec_private_key_size(alg);
    let (r2, s2) = choose|r1: Seq<u8>, s1: Seq<u8>|
        is_der_signature_of(d, r1, s1) && r1.len() <= n && s1.len() <= n;
    lemma_der_signature_injective(d, r, s, r2, s2);
}

/// Converts a fixed-width ECDSA signature (`r || s`, each component left-padded to the
/// curve's field length) into its DER form `SEQUENCE { INTEGER r, INTEGER s }`.
///
/// Fails exactly when `sig` is not twice the field length long.
pub fn ecdsa_fixed_to_asn1(alg: &AlgorithmID, sig: &[u8]) -> (r: Result<Vec<u8>, Unspecified>)
    ensures
        match r {
            Ok(d) => der_of_fixed(sig@, spec_private_key_size(*alg)) == Some(d@),
            Err(_) => der_of_fixed(sig@, spec_private_key_size(*alg)) is None,
        },
{
    let n = alg.private_key_size();
    if sig.len() != 2 * n {
        return Err(Unspecified);
    }
    let len = 2 * n;
    let rs = skip_leading_zeros(sig, 0, n);
    let ss = skip_leading_zeros(sig, n, len);
    let ghost rm = sig@.subrange(rs as int, n as int);
    let ghost sm = sig@.subrange(ss as int, len as int);
    assert(sig@.subrange(0, n as int) =~= sig@.take(n as int));
    assert(sig@.subrange(n as int, len as int) =~= sig@.skip(n as int));
    let rcl = der_integer_content_len(sig, rs, n);
    let scl = der_integer_content_len(sig, ss, len);
    let body_len = 1 + der_length_len(rcl) + rcl + 1 + der_length_len(scl) + scl;
    assert(body_len == der_integer(rm).len() + der_integer(sm).len());
    let mut out: Vec<u8> = Vec::new();
    out.push(0x30u8);
    push_der_length(&mut out, body_len);
    push_der_integer(&mut out, sig, rs, n);
    push_der_integer(&mut out, sig, ss, len);
    assert(out@ =~= der_signature(rm, sm));
    Ok(out)
}


proof fn lemma_prefix_drop_first(p: Seq<u8>, s: Seq<u8>)
    requires
        p.len() > 0,
        is_prefix(p, s),
    ensures
        s[0] == p[0],
        is_prefix(p.drop_first(), s.drop_first()),
{
    assert(s.take(p.len() as int)[0] == s[0]);
    assert forall|i: int| 0 <= i < p.len() - 1 implies s.drop_first().take(p.len() - 1)[i]
        == p.drop_first()[i] by {
        assert(s.take(p.len() as int)[i + 1] == s[i + 1]);
    }
    assert(s.drop_first().take(p.len() - 1) =~= p.drop_first());
}

proof fn lemma_prefix_concat(a: Seq<u8>, b: Seq<u8>, s: Seq<u8>)
    requires
        is_prefix(a + b, s),
    ensures
        is_prefix(a, s),
        is_prefix(b, s.skip(a.len() as int)),
{
    let ab = a + b;
    assert forall|i: int| 0 <= i < ab.len() implies s[i] == ab[i] by {
        assert(s.take(ab.len() as int)[i] == s[i]);
    }
    assert(s.take(a.len() as int) =~= a);
    assert(s.skip(a.len() as int).take(b.len() as int) =~= b);
}

/// Reads DER length octets (short form, or `0x81` and one byte) at `pos`: the length
/// and the position after them.
fn parse_der_length(d: &[u8], pos: usize) -> (r: Option<(usize, usize)>)
    requires
        pos <= d@.len(),
    ensures
        r matches Some((n, next)) ==> n < 256 && next == pos + der_length(n as nat).len()
            && is_prefix(der_length(n as nat), d@.skip(pos as int)),
        r is None ==> forall|n: nat| n < 256 ==> !is_prefix(der_length(n), d@.skip(pos as int)),
{
    let ghost t = d@.skip(pos as int);
    if pos >= d.len() {
        return None;
    }
    let b = d[pos];
    if b < 0x80 {
        let n = b as usize;
        assert(t.take(1) =~= der_length(n as nat));
        Some((n, pos + 1))
    } else if b == 0x81 && pos + 1 < d.len() && d[pos + 1] >= 0x80 {
        let n = d[pos + 1] as usize;
        assert(t.take(2) =~= der_length(n as nat));
        Some((n, pos + 2))
    } else {
        assert forall|n: nat| n < 256 implies !is_prefix(der_length(n), t) by {
            if is_prefix(der_length(n), t) {
                assert(t.take(der_length(n).len() as int)[0] == t[0]);
                if n >= 128 {
                    assert(t.take(2)[1] == t[1]);
                }
            }
        }
        None
    }
}

/// Reads a DER INTEGER with a positive value at `pos`: where its minimal magnitude starts
/// and ends (the end is also the position after the INTEGER).
fn parse_der_integer(d: &[u8], pos: usize) -> (r: Option<(usize, usize)>)
    requires
        pos <= d@.len(),
    ensures
        r matches Some((ms, me)) ==> pos < ms <= me <= d@.len() && is_minimal_positive(
            d@.subrange(ms as int, me as int),
        ) && der_integer_content(d@.subrange(ms as int, me as int)).len() < 256 && is_prefix(
            der_integer(d@.subrange(ms as int, me as int)),
            d@.skip(pos as int),
        ) && me == pos + der_integer(d@.subrange(ms as int, me as int)).len(),
        r is None ==> forall|m: Seq<u8>|
            is_minimal_positive(m) && der_integer_content(m).len() < 256 ==> !is_prefix(
                der_integer(m),
                d@.skip(pos as int),
            ),
{
    let ghost t = d@.skip(pos as int);
    if pos >= d.len() || d[pos] != 0x02 {
        proof {
            assert forall|m: Seq<u8>|
                is_minimal_positive(m) && der_integer_content(m).len() < 256 implies !is_prefix(
                der_integer(m),
                t,
            ) by {
                if is_prefix(der_integer(m), t) {
                    lemma_prefix_drop_first(der_integer(m), t);
                }
            }
        }
        return None;
    }
    assert(t.drop_first() =~= d@.skip(pos + 1));
    match parse_der_length(d, pos + 1) {
        None => {
            proof {
                assert forall|m: Seq<u8>|
                    is_minimal_positive(m) && der_integer_content(m).len() < 256
                        implies !is_prefix(der_integer(m), t) by {
                    if is_prefix(der_integer(m), t) {
                        let c = der_integer_content(m);
                        lemma_prefix_drop_first(der_integer(m), t);
                        assert(der_integer(m).drop_first() =~= der_length(c.len()) + c);
                        lemma_prefix_concat(der_length(c.len()), c, t.drop_first());
                    }
                }
            }
            None
        },
        Some((cl, p)) => {
            let ok = cl >= 1 && cl <= d.len() - p && (d[p] != 0 && d[p] < 0x80 || d[p] == 0 && cl
                >= 2 && d[p + 1] >= 0x80);
            if !ok {
                proof {
                    assert forall|m: Seq<u8>|
                        is_minimal_positive(m) && der_integer_content(m).len() < 256
                            implies !is_prefix(der_integer(m), t) by {
                        if is_prefix(der_integer(m), t) {
                            let c = der_integer_content(m);
                            lemma_prefix_drop_first(der_integer(m), t);
                            assert(der_integer(m).drop_first() =~= der_length(c.len()) + c);
                            lemma_prefix_concat(der_length(c.len()), c, t.drop_first());
                            lemma_der_length_unique(t.drop_first(), cl as nat, c.len());
                            let u = t.drop_first().skip(der_length(c.len()).len() as int);
                            assert(u =~= d@.skip(p as int));
                            assert(u.take(c.len() as int)[0] == u[0]);
                            if c.len() >= 2 {
                                assert(u.take(c.len() as int)[1] == u[1]);
                            }
                        }
                    }
                }
                return None;
            }
            let ms = if d[p] == 0 {
                p + 1
            } else {
                p
            };
            let me = p + cl;
            proof {
                let m = d@.subrange(ms as int, me as int);
                let c = d@.subrange(p as int, me as int);
                assert(der_integer_content(m) =~= c);
                assert(der_integer(m) =~= t.take(der_integer(m).len() as int));
            }
            Some((ms, me))
        },
    }
}

proof fn lemma_der_signature_layout(d: Seq<u8>, a: Seq<u8>, b: Seq<u8>)
    requires
        is_der_signature_of(d, a, b),
    ensures
        d.len() > 0,
        d[0] == 0x30,
        (der_integer(a) + der_integer(b)).len() < 256,
        is_prefix(der_length((der_integer(a) + der_integer(b)).len()), d.skip(1)),
        der_integer_content(a).len() < 256,
        der_integer_content(b).len() < 256,
        is_prefix(
            der_integer(a),
            d.skip((1 + der_length((der_integer(a) + der_integer(b)).len()).len()) as int),
        ),
        is_prefix(
            der_integer(b),
            d.skip(
                (1 + der_length((der_integer(a) + der_integer(b)).len()).len() + der_integer(
                    a,
                ).len()) as int,
            ),
        ),
        d.len() == 1 + der_length((der_integer(a) + der_integer(b)).len()).len() + der_integer(
            a,
        ).len() + der_integer(b).len(),
{
    let ia = der_integer(a);
    let ib = der_integer(b);
    let body = ia + ib;
    let hl = der_length(body.len());
    assert(d.skip(1) =~= hl + body);
    assert(d.skip(1).take(hl.len() as int) =~= hl);
    let p = 1 + hl.len();
    let u = d.skip(p as int);
    assert(u =~= body);
    assert(u.take(ia.len() as int) =~= ia);
    let v = d.skip((p + ia.len()) as int);
    assert(v =~= ib);
    assert(v.take(ib.len() as int) =~= ib);
}

/// Reads a DER ECDSA signature `SEQUENCE { INTEGER r, INTEGER s }` that spans all of `d`:
/// the bounds of the minimal magnitudes of `r` and `s`.
fn parse_der_signature(d: &[u8]) -> (r: Option<(usize, usize, usize, usize)>)
    ensures
        r matches Some((rs, re, ss, se)) ==> rs <= re <= ss <= se <= d@.len()
            && is_der_signature_of(
            d@,
            d@.subrange(rs as int, re as int),
            d@.subrange(ss as int, se as int),
        ),
        r is None ==> forall|a: Seq<u8>, b: Seq<u8>| !is_der_signature_of(d@, a, b),
{
    if d.len() == 0 || d[0] != 0x30 {
        assert forall|a: Seq<u8>, b: Seq<u8>| !is_der_signature_of(d@, a, b) by {
            if is_der_signature_of(d@, a, b) {
                lemma_der_signature_layout(d@, a, b);
            }
        }
        return None;
    }
    let (bl, p) = match parse_der_length(d, 1) {
        None => {
            assert forall|a: Seq<u8>, b: Seq<u8>| !is_der_signature_of(d@, a, b) by {
                if is_der_signature_of(d@, a, b) {
                    lemma_der_signature_layout(d@, a, b);
                }
            }
            return None;
        },
        Some(x) => x,
    };
    if bl != d.len() - p {
        assert forall|a: Seq<u8>, b: Seq<u8>| !is_der_signature_of(d@, a, b) by {
            if is_der_signature_of(d@, a, b) {
                lemma_der_signature_layout(d@, a, b);
                lemma_der_length_unique(
                    d@.skip(1),
                    bl as nat,
                    (der_integer(a) + der_integer(b)).len(),
                );
            }
        }
        return None;
    }
    let (rs, re) = match parse_der_integer(d, p) {
        None => {
            assert forall|a: Seq<u8>, b: Seq<u8>| !is_der_signature_of(d@, a, b) by {
                if is_der_signature_of(d@, a, b) {
                    lemma_der_signature_layout(d@, a, b);
                    lemma_der_length_unique(
                        d@.skip(1),
                        bl as nat,
                        (der_integer(a) + der_integer(b)).len(),
                    );
                }
            }
            return None;
        },
        Some(x) => x,
    };
    let (ss, se) = match parse_der_integer(d, re) {
        None => {
            assert forall|a: Seq<u8>, b: Seq<u8>| !is_der_signature_of(d@, a, b) by {
                if is_der_signature_of(d@, a, b) {
                    lemma_der_signature_layout(d@, a, b);
                    lemma_der_length_unique(
                        d@.skip(1),
                        bl as nat,
                        (der_integer(a) + der_integer(b)).len(),
                    );
                    lemma_der_integer_unique(d@.skip(p as int), d@.subrange(rs as int, re as int), a);
                }
            }
            return None;
        },
        Some(x) => x,
    };
    if se != d.len() {
        assert forall|a: Seq<u8>, b: Seq<u8>| !is_der_signature_of(d@, a, b) by {
            if is_der_signature_of(d@, a, b) {
                lemma_der_signature_layout(d@, a, b);
                lemma_der_length_unique(
                    d@.skip(1),
                    bl as nat,
                    (der_integer(a) + der_integer(b)).len(),
                );
                lemma_der_integer_unique(d@.skip(p as int), d@.subrange(rs as int, re as int), a);
                lemma_der_integer_unique(d@.skip(re as int), d@.subrange(ss as int, se as int), b);
            }
        }
        return None;
    }
    proof {
        let a = d@.subrange(rs as int, re as int);
        let b = d@.subrange(ss as int, se as int);
        let ia = der_integer(a);
        let ib = der_integer(b);
        assert(d@.skip(p as int).take(ia.len() as int) =~= d@.subrange(p as int, re as int));
        assert(d@.skip(re as int).take(ib.len() as int) =~= d@.subrange(re as int, se as int));
        assert(d@.skip(1).take(der_length(bl as nat).len() as int) =~= d@.subrange(1, p as int));
        assert(ia + ib =~= d@.subrange(p as int, se as int));
        assert(d@ =~= der_signature(a, b));
    }
    Some((rs, re, ss, se))
}


/// Converts a DER ECDSA signature into its fixed-width form: `r` and `s`, each right-aligned
/// in a zero-filled field of the curve's field length, so that a short component gets
/// leading zeros.
///
/// Fails exactly when `sig` is not the DER encoding of two positive integers, or one of them
/// does not fit in the field length.
pub fn ecdsa_asn1_to_fixed(alg: &AlgorithmID, sig: &[u8]) -> (r: Result<Vec<u8>, Unspecified>)
    ensures
        match r {
            Ok(f) => fixed_of_der(sig@, spec_private_key_size(*alg)) == Some(f@),
            Err(_) => fixed_of_der(sig@, spec_private_key_size(*alg)) is None,
        },
{
    let n = alg.private_key_size();
    let ghost nn = spec_private_key_size(*alg);
    let (rs, re, ss, se) = match parse_der_signature(sig) {
        None => {
            return Err(Unspecified);
        },
        Some(x) => x,
    };
    let ghost a = sig@.subrange(rs as int, re as int);
    let ghost b = sig@.subrange(ss as int, se as int);
    if re - rs > n || se - ss > n {
        proof {
            assert forall|a2: Seq<u8>, b2: Seq<u8>|
                is_der_signature_of(sig@, a2, b2) implies !(a2.len() <= nn && b2.len() <= nn) by {
                lemma_der_signature_injective(sig@, a, b, a2, b2);
            }
        }
        return Err(Unspecified);
    }
    let mut out: Vec<u8> = Vec::new();
    push_zeros(&mut out, n - (re - rs));
    push_range(&mut out, sig, rs, re);
    push_zeros(&mut out, n - (se - ss));
    push_range(&mut out, sig, ss, se);
    proof {
        assert(is_der_signature_of(sig@, a, b) && a.len() <= nn && b.len() <= nn);
        let (a2, b2) = choose|a2: Seq<u8>, b2: Seq<u8>|
            is_der_signature_of(sig@, a2, b2) && a2.len() <= nn && b2.len() <= nn;
        lemma_der_signature_injective(sig@, a, b, a2, b2);
        assert(out@ =~= pad_left(a, nn) + pad_left(b, nn));
    }
    Ok(out)
}

} // verus!
