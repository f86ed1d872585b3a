//! The calls into other crates. Verus takes the contracts in this file on
//! trust: each says of one outside function what its source shows.

use aes_gcm::aead::{Aead, AeadCore, KeyInit, OsRng};
use aes_gcm::Aes256Gcm;
use vstd::prelude::*;

verus! {

/// The largest plaintext that AES-GCM encrypts, in bytes.
pub const AEAD_MAX_PLAINTEXT: u64 = 0x10_0000_0000;

/// The number of bytes that encryption adds to a plaintext.
pub const AEAD_TAG_LEN: usize = 16;

/// The number of bytes in an encryption nonce.
pub const AEAD_NONCE_LEN: usize = 12;

/// What AES-256-GCM makes of a plaintext under a key and a nonce, with no
/// associated data: the ciphertext followed by its tag.
pub uninterp spec fn aes256_gcm_encrypt(
    key: Seq<u8>,
    nonce: Seq<u8>,
    plaintext: Seq<u8>,
) -> Seq<u8>;

/// What AES-256-GCM recovers from a ciphertext with its tag under a key and
/// a nonce, with no associated data; nothing where the tag does not fit.
pub uninterp spec fn aes256_gcm_decrypt(
    key: Seq<u8>,
    nonce: Seq<u8>,
    ciphertext: Seq<u8>,
) -> Option<Seq<u8>>;

/// The BLAKE3 hash of a byte sequence.
pub uninterp spec fn blake3_hash(input: Seq<u8>) -> Seq<u8>;

/// `Aead::encrypt` on an `Aes256Gcm` made from `key`. The call fails only on
/// a plaintext above `AEAD_MAX_PLAINTEXT`, which `requires` leaves out. The
/// result is the ciphertext and the 16 bytes of its tag, and `Aead::decrypt`
/// under the same key and nonce gives the plaintext back.
#[verifier::external_body]
pub(crate) fn seal(key: &[u8; 32], nonce: &[u8; 12], plaintext: &[u8]) -> (ciphertext: Vec<u8>)
    requires
        plaintext@.len() <= AEAD_MAX_PLAINTEXT,
    ensures
        ciphertext@ == aes256_gcm_encrypt(key@, nonce@, plaintext@),
        ciphertext@.len() == plaintext@.len() + AEAD_TAG_LEN,
        aes256_gcm_decrypt(key@, nonce@, ciphertext@) == Some(plaintext@),
{
    let cipher = Aes256Gcm::new(key.into());
    cipher.encrypt(nonce.into(), plaintext).expect("plaintext within the cipher's limit")
}

/// `Aead::decrypt` on an `Aes256Gcm` made from `key`: the plaintext, or
/// nothing where the cipher reports an error. The nonce must have 12 bytes,
/// since the conversion of any other slice panics.
#[verifier::external_body]
pub(crate) fn open(key: &[u8; 32], nonce: &[u8], ciphertext: &[u8]) -> (plaintext: Option<Vec<u8>>)
    requires
        nonce@.len() == AEAD_NONCE_LEN,
    ensures
        match plaintext {
            Some(bytes) => aes256_gcm_decrypt(key@, nonce@, ciphertext@) == Some(bytes@),
            None => aes256_gcm_decrypt(key@, nonce@, ciphertext@) is None,
        },
{
    let cipher = Aes256Gcm::new(key.into());
    cipher.decrypt(nonce.into(), ciphertext).ok()
}

/// `AeadCore::generate_nonce` of `Aes256Gcm` on the operating system's
/// generator: 12 random bytes, of which nothing is known.
#[verifier::external_body]
pub(crate) fn fresh_nonce() -> (nonce: [u8; 12]) {
    Aes256Gcm::generate_nonce(&mut OsRng).into()
}

/// `blake3::hash`: the 32 bytes of the BLAKE3 hash of `input`.
#[verifier::external_body]
pub(crate) fn blake3_digest(input: &[u8]) -> (digest: [u8; 32])
    ensures
        digest@ == blake3_hash(input@),
{
    blake3::hash(input).into()
}

/// `rand::random` for a 128-bit number, of which nothing is known.
#[verifier::external_body]
pub(crate) fn random_u128() -> (value: u128) {
    rand::random()
}

/// `rand::random` for a 64-bit number, of which nothing is known.
#[verifier::external_body]
pub(crate) fn random_u64() -> (value: u64) {
    rand::random()
}

/// `fastrand::usize` on the range below `bound`: a random number of that
/// range. The call panics on an empty range, which `requires` leaves out.
#[verifier::external_body]
pub(crate) fn random_below(bound: usize) -> (value: usize)
    requires
        bound > 0,
    ensures
        value < bound,
{
    fastrand::usize(..bound)
}

} // verus!
