//! The cryptographic primitives the runtime cache relies on, each a thin
//! call into its crate.

use chacha20poly1305::aead::{Aead, Payload};
use chacha20poly1305::{KeyInit, XChaCha20Poly1305, XNonce};
use hkdf::Hkdf;
use sha2::{Digest, Sha256};
use vstd::prelude::*;

verus! {

/// The SHA-256 digest of a byte string.
pub uninterp spec fn sha256_digest(data: Seq<u8>) -> Seq<u8>;

/// The 32 bytes HKDF-SHA-256 derives from a salt, input key material and
/// an info string.
pub uninterp spec fn hkdf_sha256_32(salt: Seq<u8>, ikm: Seq<u8>, info: Seq<u8>) -> Seq<u8>;

/// XChaCha20-Poly1305 ciphertext with its tag appended.
pub uninterp spec fn xchacha20poly1305_seal(
    key: Seq<u8>,
    nonce: Seq<u8>,
    msg: Seq<u8>,
    aad: Seq<u8>,
) -> Seq<u8>;

/// The plaintext XChaCha20-Poly1305 recovers from a ciphertext, or none when
/// the tag does not authenticate it.
pub uninterp spec fn xchacha20poly1305_open(
    key: Seq<u8>,
    nonce: Seq<u8>,
    ct: Seq<u8>,
    aad: Seq<u8>,
) -> Option<Seq<u8>>;

/// SHA-256 of `data`.
///
/// Calls `sha2::Sha256::digest`. The contract names the digest and states
/// its length, 32 bytes.
#[verifier::external_body]
pub(crate) fn sha256(data: &[u8]) -> (res: Vec<u8>)
    ensures
        res@ == sha256_digest(data@),
        res@.len() == 32,
{
    Sha256::digest(data).to_vec()
}

/// 32 bytes of HKDF-SHA-256 output.
///
/// Calls `hkdf::Hkdf::<Sha256>::new(Some(salt), ikm)` and `expand(info, ..)`
/// into a 32-byte buffer. `expand` fails only for more than 255 × 32 bytes,
/// so it succeeds here. The contract names the output and states its length.
#[verifier::external_body]
pub(crate) fn hkdf_sha256(salt: &[u8], ikm: &[u8], info: &[u8]) -> (res: Vec<u8>)
    ensures
        res@ == hkdf_sha256_32(salt@, ikm@, info@),
        res@.len() == 32,
{
    let mut okm = vec![0u8; 32];
    Hkdf::<Sha256>::new(Some(salt), ikm)
        .expand(info, &mut okm)
        .expect("32 bytes is a valid HKDF-SHA-256 output length");
    okm
}

/// XChaCha20-Poly1305 encryption of `msg` with `aad`.
///
/// Calls `XChaCha20Poly1305::new_from_slice(key)` and `Aead::encrypt`. The
/// crate refuses a key of another length than 32 bytes (excluded by
/// `requires`), and refuses a message of 2^32 - 1 blocks of 64 bytes or
/// more; it appends a 16-byte tag. The contract names the ciphertext, states
/// its length, and states when encryption succeeds.
#[verifier::external_body]
pub(crate) fn xchacha20poly1305_encrypt(key: &[u8], nonce: &[u8], msg: &[u8], aad: &[u8]) -> (res: Option<
    Vec<u8>,
>)
    requires
        key@.len() == 32,
        nonce@.len() == 24,
    ensures
        msg@.len() / 64 < 0xffff_ffff ==> res is Some,
        res matches Some(ct) ==> ct@ == xchacha20poly1305_seal(key@, nonce@, msg@, aad@)
            && ct@.len() == msg@.len() + 16,
{
    let cipher = XChaCha20Poly1305::new_from_slice(key).expect("a 32-byte key");
    cipher.encrypt(XNonce::from_slice(nonce), Payload { msg, aad }).ok()
}

/// XChaCha20-Poly1305 decryption of `ct` with `aad`.
///
/// Calls `XChaCha20Poly1305::new_from_slice(key)` and `Aead::decrypt`. The
/// contract names the outcome and states the correctness of the cipher: a
/// ciphertext made by encrypting a message (of fewer than 2^32 - 1 blocks)
/// under the same key, nonce and associated data decrypts to that message.
/// It does not state that only such ciphertexts decrypt.
#[verifier::external_body]
pub(crate) fn xchacha20poly1305_decrypt(key: &[u8], nonce: &[u8], ct: &[u8], aad: &[u8]) -> (res: Option<
    Vec<u8>,
>)
    requires
        key@.len() == 32,
        nonce@.len() == 24,
    ensures
        res matches Some(m) ==> xchacha20poly1305_open(key@, nonce@, ct@, aad@) == Some(m@),
        res is None ==> xchacha20poly1305_open(key@, nonce@, ct@, aad@) is None,
        res is None ==> forall|m: Seq<u8>|
            #![trigger xchacha20poly1305_seal(key@, nonce@, m, aad@)]
            ct@ != xchacha20poly1305_seal(key@, nonce@, m, aad@) || m.len() / 64 >= 0xffff_ffff,
        res matches Some(p) ==> forall|m: Seq<u8>|
            #![trigger xchacha20poly1305_seal(key@, nonce@, m, aad@)]
            ct@ == xchacha20poly1305_seal(key@, nonce@, m, aad@) && m.len() / 64 < 0xffff_ffff
                ==> p@ == m,
{
    let cipher = XChaCha20Poly1305::new_from_slice(key).expect("a 32-byte key");
    cipher.decrypt(XNonce::from_slice(nonce), Payload { msg: ct, aad }).ok()
}

/// `len` bytes from the system's random number generator.
///
/// Calls `getrandom::fill`. The contract states only the length of the bytes
/// it returns; whether the generator is available is not stated.
#[verifier::external_body]
pub(crate) fn random_bytes(len: usize) -> (res: Option<Vec<u8>>)
    ensures
        res matches Some(v) ==> v@.len() == len,
{
    let mut bytes = vec![0u8; len];
    getrandom::fill(&mut bytes).ok().map(|_| bytes)
}

} // verus!
