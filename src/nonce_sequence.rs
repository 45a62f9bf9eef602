use vstd::prelude::*;

use aes::cipher::{BlockEncrypt, KeyInit};
use zeroize::Zeroize;

use crate::error::Unspecified;

verus! {

/// Length in bytes of every nonce.
pub const NONCE_LEN: usize = 12;

/// A 96-bit nonce.
pub struct Nonce(pub [u8; 12]);

impl View for Nonce {
    type V = Seq<u8>;

    open spec fn view(&self) -> Seq<u8> {
        self.0@
    }
}

/// The counter after one step: it grows by one and wraps to zero past `u64::MAX`.
pub open spec fn next_position(p: u64) -> u64 {
    if p == u64::MAX {
        0
    } else {
        (p + 1) as u64
    }
}

/// The eight big-endian bytes of `x`.
pub open spec fn be_bytes_u64(x: u64) -> Seq<u8> {
    seq![
        (x >> 56u64) as u8,
        (x >> 48u64) as u8,
        (x >> 40u64) as u8,
        (x >> 32u64) as u8,
        (x >> 24u64) as u8,
        (x >> 16u64) as u8,
        (x >> 8u64) as u8,
        x as u8,
    ]
}

/// The nonce that a predictable sequence hands out for counter value `p`:
/// four zero bytes, then the counter in big-endian order.
pub open spec fn predictable_nonce(p: u64) -> Seq<u8> {
    seq![0u8, 0u8, 0u8, 0u8] + be_bytes_u64(p)
}

fn u64_to_be_bytes(x: u64) -> (r: [u8; 8])
    ensures
        r@ == be_bytes_u64(x),
{
    let r: [u8; 8] = [
        (x >> 56u64) as u8,
        (x >> 48u64) as u8,
        (x >> 40u64) as u8,
        (x >> 32u64) as u8,
        (x >> 24u64) as u8,
        (x >> 16u64) as u8,
        (x >> 8u64) as u8,
        x as u8,
    ];
    assert(r@ =~= be_bytes_u64(x));
    r
}

/// A nonce sequence whose next nonce anyone can predict from the previous ones.
///
/// Its state is a 64-bit counter that grows by one on each `advance`; the nonce is
/// the counter itself.
pub struct PredictableNonceSequence {
    position: u64,
}

impl View for PredictableNonceSequence {
    type V = u64;

    closed spec fn view(&self) -> u64 {
        self.position
    }
}

impl PredictableNonceSequence {
    /// A sequence whose counter starts at 0.
    pub fn new() -> (r: PredictableNonceSequence)
        ensures
            r@ == 0,
    {
        PredictableNonceSequence::starting_from(0)
    }

    /// A sequence whose counter starts at `position`.
    pub fn starting_from(position: u64) -> (r: PredictableNonceSequence)
        ensures
            r@ == position,
    {
        PredictableNonceSequence { position }
    }

    /// Steps the counter and returns the nonce for its new value.
    pub fn advance(&mut self) -> (r: Result<Nonce, Unspecified>)
        ensures
            final(self)@ == next_position(old(self)@),
            r matches Ok(n) && n@ == predictable_nonce(final(self)@),
    {
        self.position = self.position.wrapping_add(1);
        let b = u64_to_be_bytes(self.position);
        let nonce_bytes: [u8; 12] = [0, 0, 0, 0, b[0], b[1], b[2], b[3], b[4], b[5], b[6], b[7]];
        assert(nonce_bytes@ =~= predictable_nonce(self.position));
        Ok(Nonce(nonce_bytes))
    }
}

impl Default for PredictableNonceSequence {
    fn default() -> (r: Self)
        ensures
            r@ == 0,
    {
        Self::new()
    }
}


/// What AES-128 gives when it encrypts the 16-byte `block` under the 16-byte `key`.
pub uninterp spec fn aes128_encrypt(key: Seq<u8>, block: Seq<u8>) -> Seq<u8>;

/// Relies on `aes::Aes128` (`KeyInit::new` and `BlockEncrypt::encrypt_block`): one AES-128
/// encryption of a single block, whose result depends on the key and the block alone.
#[verifier::external_body]
fn aes128_encrypt_block(key: &[u8; 16], block: &[u8; 16]) -> (r: [u8; 16])
    ensures
        r@ == aes128_encrypt(key@, block@),
{
    let cipher = aes::Aes128::new(&(*key).into());
    let mut b = (*block).into();
    cipher.encrypt_block(&mut b);
    b.into()
}

#[verifier::external_type_specification]
#[verifier::external_body]
pub struct ExRandomError(getrandom::Error);

/// Relies on `getrandom::getrandom`: fills `dest` from the operating system's random source,
/// or reports that it could not. Nothing is known of the bytes.
#[verifier::external_body]
fn fill_random(dest: &mut [u8; 16]) -> (r: Result<(), getrandom::Error>) {
    getrandom::getrandom(dest)
}

/// Relies on `zeroize::Zeroize` for byte arrays: every byte is overwritten with zero.
#[verifier::external_body]
fn zeroize_key_bytes(bytes: &mut [u8; 16])
    ensures
        final(bytes)@ == Seq::new(16, |i: int| 0u8),
{
    bytes.zeroize();
}

/// The 16-byte block that an unpredictable sequence encrypts for counter value `p`:
/// the counter's big-endian bytes at offset 4, zeros elsewhere.
pub open spec fn counter_block(p: u64) -> Seq<u8> {
    seq![0u8, 0u8, 0u8, 0u8] + be_bytes_u64(p) + seq![0u8, 0u8, 0u8, 0u8]
}

/// The nonce that an unpredictable sequence with key `key` hands out for counter value `p`:
/// the first 12 bytes of the encrypted counter block.
pub open spec fn unpredictable_nonce(key: Seq<u8>, p: u64) -> Seq<u8> {
    aes128_encrypt(key, counter_block(p)).take(12)
}

/// A 128-bit key for an `UnpredictableNonceSequence`.
pub struct NonceSequenceKey([u8; 16]);

impl View for NonceSequenceKey {
    type V = Seq<u8>;

    closed spec fn view(&self) -> Seq<u8> {
        self.0@
    }
}

impl NonceSequenceKey {
    /// A key drawn from the operating system's random source.
    fn new() -> (r: Result<NonceSequenceKey, Unspecified>)
        ensures
            r matches Ok(k) ==> k@.len() == 16,
    {
        let mut key = [0u8; 16];
        match fill_random(&mut key) {
            Ok(()) => Ok(NonceSequenceKey(key)),
            Err(_) => Err(Unspecified),
        }
    }

    /// The key made of the given bytes.
    pub fn from_bytes(value: &[u8; 16]) -> (r: NonceSequenceKey)
        ensures
            r@ == value@,
    {
        NonceSequenceKey(*value)
    }

    /// The key's bytes.
    pub fn to_bytes(&self) -> (r: [u8; 16])
        ensures
            r@ == self@,
    {
        self.0
    }

    /// Overwrites the key material with zeros.
    pub fn zeroize(&mut self)
        ensures
            final(self)@ == Seq::new(16, |i: int| 0u8),
    {
        zeroize_key_bytes(&mut self.0);
    }
}

impl From<&[u8; 16]> for NonceSequenceKey {
    fn from(value: &[u8; 16]) -> (r: NonceSequenceKey)
        ensures
            r@ == value@,
    {
        NonceSequenceKey(*value)
    }
}

impl vstd::std_specs::convert::FromSpecImpl<&[u8; 16]> for NonceSequenceKey {
    open spec fn obeys_from_spec() -> bool {
        true
    }

    closed spec fn from_spec(v: &[u8; 16]) -> NonceSequenceKey {
        NonceSequenceKey(*v)
    }
}

impl From<NonceSequenceKey> for [u8; 16] {
    fn from(value: NonceSequenceKey) -> (r: [u8; 16])
        ensures
            r@ == value@,
    {
        value.0
    }
}

impl vstd::std_specs::convert::FromSpecImpl<NonceSequenceKey> for [u8; 16] {
    open spec fn obeys_from_spec() -> bool {
        true
    }

    closed spec fn from_spec(v: NonceSequenceKey) -> [u8; 16] {
        v.0
    }
}

impl Clone for NonceSequenceKey {
    fn clone(&self) -> (r: Self)
        ensures
            r@ == self@,
    {
        NonceSequenceKey(self.0)
    }
}

/// A nonce sequence whose nonces look random to anyone without the key.
///
/// Its state is a 64-bit counter and an AES-128 key fixed at construction. Each `advance`
/// steps the counter and encrypts it under the key; the nonce is the first 96 bits of
/// the ciphertext.
pub struct UnpredictableNonceSequence {
    aes_key: [u8; 16],
    position: u64,
}

impl View for UnpredictableNonceSequence {
    type V = (Seq<u8>, u64);

    closed spec fn view(&self) -> (Seq<u8>, u64) {
        (self.aes_key@, self.position)
    }
}

impl UnpredictableNonceSequence {
    /// A fresh random key, and a sequence that uses it with its counter at 0.
    pub fn new() -> (r: Result<(NonceSequenceKey, UnpredictableNonceSequence), Unspecified>)
        ensures
            r matches Ok((k, s)) ==> s@ == (k@, 0u64),
    {
        UnpredictableNonceSequence::starting_from(0)
    }

    /// A fresh random key, and a sequence that uses it with its counter at `position`.
    pub fn starting_from(position: u64) -> (r: Result<
        (NonceSequenceKey, UnpredictableNonceSequence),
        Unspecified,
    >)
        ensures
            r matches Ok((k, s)) ==> s@ == (k@, position),
    {
        let key = NonceSequenceKey::new()?;
        let s = UnpredictableNonceSequence::using_key_and_position(&key, position);
        Ok((key.clone(), s))
    }

    /// A sequence that uses `key`, with its counter at 0.
    pub fn using_key(key: &NonceSequenceKey) -> (r: UnpredictableNonceSequence)
        ensures
            r@ == (key@, 0u64),
    {
        UnpredictableNonceSequence::using_key_and_position(key, 0)
    }

    /// A sequence that uses `key`, with its counter at `position`.
    pub fn using_key_and_position(key: &NonceSequenceKey, position: u64) -> (r:
        UnpredictableNonceSequence)
        ensures
            r@ == (key@, position),
    {
        UnpredictableNonceSequence { aes_key: key.0, position }
    }

    /// Steps the counter and returns the nonce for its new value.
    pub fn advance(&mut self) -> (r: Result<Nonce, Unspecified>)
        ensures
            final(self)@ == (old(self)@.0, next_position(old(self)@.1)),
            r matches Ok(n) && n@ == unpredictable_nonce(final(self)@.0, final(self)@.1),
    {
        self.position = self.position.wrapping_add(1);
        let b = u64_to_be_bytes(self.position);
        let block: [u8; 16] = [
            0, 0, 0, 0, b[0], b[1], b[2], b[3], b[4], b[5], b[6], b[7], 0, 0, 0, 0,
        ];
        assert(block@ =~= counter_block(self.position));
        let e = aes128_encrypt_block(&self.aes_key, &block);
        let nonce_bytes: [u8; 12] = [
            e[0], e[1], e[2], e[3], e[4], e[5], e[6], e[7], e[8], e[9], e[10], e[11],
        ];
        assert(nonce_bytes@ =~= unpredictable_nonce(self.aes_key@, self.position));
        Ok(Nonce(nonce_bytes))
    }
}


/// The counter after `k` steps from `p`.
pub open spec fn position_after(p: u64, k: nat) -> u64
    decreases k,
{
    if k == 0 {
        p
    } else {
        next_position(position_after(p, (k - 1) as nat))
    }
}

/// The first `k` nonces that an unpredictable sequence with key `key` and counter `p` hands
/// out, one per `advance`.
pub open spec fn unpredictable_stream(key: Seq<u8>, p: u64, k: nat) -> Seq<Seq<u8>> {
    Seq::new(k, |i: int| unpredictable_nonce(key, position_after(p, (i + 1) as nat)))
}

proof fn lemma_position_after(p: u64, k: nat)
    ensures
        position_after(p, k) == (p + k) % 0x1_0000_0000_0000_0000,
    decreases k,
{
    if k > 0 {
        lemma_position_after(p, (k - 1) as nat);
    }
}

/// Two unpredictable sequences built from the same key and the same starting counter hand
/// out the same nonces, call after call: the one handed out by the `i`-th call (counting
/// from 0) is the encryption of the counter `start + i + 1`, modulo 2^64.
pub proof fn lemma_unpredictable_replay(key1: Seq<u8>, start1: u64, key2: Seq<u8>, start2: u64, k: nat)
    requires
        key1 == key2,
        start1 == start2,
    ensures
        unpredictable_stream(key1, start1, k) == unpredictable_stream(key2, start2, k),
        forall|i: int|
            0 <= i < k ==> #[trigger] unpredictable_stream(key1, start1, k)[i] == unpredictable_nonce(
                key1,
                ((start1 + i + 1) % 0x1_0000_0000_0000_0000) as u64,
            ),
{
    assert forall|i: int| 0 <= i < k implies #[trigger] unpredictable_stream(key1, start1, k)[i]
        == unpredictable_nonce(key1, ((start1 + i + 1) % 0x1_0000_0000_0000_0000) as u64) by {
        lemma_position_after(start1, (i + 1) as nat);
    }
}

} // verus!
