//! Cryptographic primitives used by authentication and channel protection.
//!
//! Each is one call into its crate; the contracts state what that crate's
//! source shows, and the results of the hash-based functions are named
//! rather than spelled out.

use vstd::prelude::*;

use aes_gcm::aead::{Aead, KeyInit};
use hmac::Mac;
use rand::RngCore;
use subtle::ConstantTimeEq;

verus! {

/// Largest plaintext, in bytes, that AES-GCM seals (2^36).
pub const AEAD_MAX_PLAINTEXT: u64 = 0x10_0000_0000;

/// Length in bytes of an AES-GCM authentication tag.
pub const AEAD_TAG_LEN: usize = 16;

/// Largest output, in bytes, of one HKDF-SHA256 expansion (255 blocks of 32).
pub const HKDF_MAX_OUTPUT: usize = 8160;

#[verifier::external_type_specification]
#[verifier::external_body]
pub struct ExAeadError(aes_gcm::Error);

/// HMAC-SHA256 of `message` under `key`.
pub uninterp spec fn hmac_sha256_tag(key: Seq<u8>, message: Seq<u8>) -> Seq<u8>;

/// The first `len` bytes of HKDF-SHA256 (extract with `salt`, then expand with `info`).
pub uninterp spec fn hkdf_sha256_okm(salt: Option<Seq<u8>>, ikm: Seq<u8>, info: Seq<u8>, len: nat) -> Seq<u8>;

/// AES-256-GCM sealing of `plaintext` with no associated data: the ciphertext followed by the tag.
pub uninterp spec fn aes256_gcm_seal(key: Seq<u8>, nonce: Seq<u8>, plaintext: Seq<u8>) -> Seq<u8>;

/// The bytes of an optional salt.
pub open spec fn opt_bytes(salt: Option<&[u8]>) -> Option<Seq<u8>> {
    match salt {
        Some(s) => Some(s@),
        None => None,
    }
}

/// The bytes carried by a successful result.
pub open spec fn ok_bytes(r: Result<Vec<u8>, aes_gcm::Error>) -> Option<Seq<u8>> {
    match r {
        Ok(v) => Some(v@),
        Err(_) => None,
    }
}

/// `opened` is what every sealing of `sealed` under `key` and `nonce` opens to:
/// a message sealed from a plaintext of at most 2^36 bytes opens to that plaintext.
pub open spec fn sealing_opens_to(key: Seq<u8>, nonce: Seq<u8>, sealed: Seq<u8>, opened: Option<Seq<u8>>) -> bool {
    forall|p: Seq<u8>|
        p.len() <= AEAD_MAX_PLAINTEXT && #[trigger] aes256_gcm_seal(key, nonce, p) == sealed ==> opened == Some(p)
}

/// HMAC-SHA256 of `message` under `key`.
///
/// Trusted: calls `Hmac::<Sha256>::new_from_slice`, `update` and `finalize` of
/// the `hmac` crate. HMAC accepts keys of every length (the crate's
/// `new_from_slice` always returns `Ok`), so a tag is always produced; the
/// tag is named, not computed here.
#[verifier::external_body]
pub(crate) fn hmac_sha256(key: &[u8], message: &[u8]) -> (tag: [u8; 32])
    ensures
        tag@ == hmac_sha256_tag(key@, message@),
{
    let mut mac = <hmac::Hmac<sha2::Sha256> as Mac>::new_from_slice(key).expect("HMAC takes any key length");
    mac.update(message);
    mac.finalize().into_bytes().into()
}

/// `N` bytes of HKDF-SHA256 output.
///
/// Trusted: calls `Hkdf::<Sha256>::new` and `Hkdf::expand` of the `hkdf`
/// crate. `expand` fails only when more than 255 blocks of 32 bytes are
/// asked for, which `requires` rules out; the bytes are named.
#[verifier::external_body]
pub(crate) fn hkdf_sha256<const N: usize>(salt: Option<&[u8]>, ikm: &[u8], info: &[u8]) -> (okm: [u8; N])
    requires
        N <= HKDF_MAX_OUTPUT,
    ensures
        okm@ == hkdf_sha256_okm(opt_bytes(salt), ikm@, info@, N as nat),
{
    let mut okm = [0u8; N];
    hkdf::Hkdf::<sha2::Sha256>::new(salt, ikm).expand(info, &mut okm).expect("output within 255 blocks");
    okm
}

/// Seals `plaintext` with AES-256-GCM, without associated data.
///
/// Trusted: calls `Aes256Gcm::new` and `Aead::encrypt` of the `aes-gcm`
/// crate. The crate refuses plaintexts longer than 2^36 bytes and otherwise
/// returns the ciphertext, as long as the plaintext, followed by the 16-byte
/// tag; the bytes are named.
#[verifier::external_body]
pub(crate) fn aes256_gcm_encrypt(key: &[u8; 32], nonce: &[u8; 12], plaintext: &[u8]) -> (r: Result<Vec<u8>, aes_gcm::Error>)
    ensures
        r is Ok <==> plaintext@.len() <= AEAD_MAX_PLAINTEXT,
        r matches Ok(c) ==> c@ == aes256_gcm_seal(key@, nonce@, plaintext@) && c@.len() == plaintext@.len() + AEAD_TAG_LEN,
{
    let cipher = aes_gcm::Aes256Gcm::new(aes_gcm::Key::<aes_gcm::Aes256Gcm>::from_slice(&key[..]));
    cipher.encrypt(aes_gcm::Nonce::from_slice(&nonce[..]), plaintext)
}

/// Opens an AES-256-GCM sealed message, without associated data.
///
/// Trusted: calls `Aes256Gcm::new` and `Aead::decrypt` of the `aes-gcm`
/// crate. What comes back is a plaintext whose sealing under the same key and
/// nonce is `sealed` (the crate checks the tag before it answers), and a
/// message sealed from a plaintext of at most 2^36 bytes opens to that
/// plaintext. On any other input the crate returns an error.
#[verifier::external_body]
pub(crate) fn aes256_gcm_decrypt(key: &[u8; 32], nonce: &[u8; 12], sealed: &[u8]) -> (r: Result<Vec<u8>, aes_gcm::Error>)
    ensures
        r matches Ok(p) ==> aes256_gcm_seal(key@, nonce@, p@) == sealed@,
        sealing_opens_to(key@, nonce@, sealed@, ok_bytes(r)),
{
    let cipher = aes_gcm::Aes256Gcm::new(aes_gcm::Key::<aes_gcm::Aes256Gcm>::from_slice(&key[..]));
    cipher.decrypt(aes_gcm::Nonce::from_slice(&nonce[..]), sealed)
}

/// Compares two byte strings in time independent of their contents.
///
/// Trusted: calls `subtle::ConstantTimeEq::ct_eq` on slices, which yields 1
/// exactly when the lengths agree and every byte matches.
#[verifier::external_body]
pub(crate) fn ct_eq_bytes(a: &[u8], b: &[u8]) -> (r: bool)
    ensures
        r == (a@ == b@),
{
    bool::from(a.ct_eq(b))
}

/// Overwrites `buf` with bytes from the thread-local random generator.
///
/// Trusted: calls `RngCore::fill_bytes` on `rand::thread_rng()`; nothing is
/// stated of the bytes.
#[verifier::external_body]
pub(crate) fn fill_random<const N: usize>(buf: &mut [u8; N]) {
    rand::thread_rng().fill_bytes(&mut buf[..]);
}

} // verus!
