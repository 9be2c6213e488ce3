//! AES-256-GCM, the authenticated encryption that protects the payload.

use aes_gcm::aead::Aead;
use aes_gcm::Aes256Gcm;
use aes_gcm::KeyInit;
use vstd::prelude::*;

verus! {

/// `aes_gcm::Error`: the cipher's failure, which deliberately carries no
/// detail. Nothing is read from it.
#[verifier::external_type_specification]
#[verifier::external_body]
pub struct ExAeadError(aes_gcm::Error);

/// The length of the authentication tag that ends every ciphertext.
pub const TAG_SIZE: usize = 16;

/// The AES-256-GCM ciphertext of `plaintext` under `key` and `nonce`, with
/// no associated data and the tag appended.
pub uninterp spec fn aes256_gcm_seal(key: Seq<u8>, nonce: Seq<u8>, plaintext: Seq<u8>) -> Seq<u8>;

/// What AES-256-GCM decryption of `ciphertext` under `key` and `nonce`
/// yields: the plaintext, or nothing when authentication fails.
pub uninterp spec fn aes256_gcm_open(key: Seq<u8>, nonce: Seq<u8>, ciphertext: Seq<u8>) -> Option<
    Seq<u8>,
>;

/// The plaintext lengths the cipher accepts: at most 2^36 bytes.
pub open spec fn sealable(plaintext: Seq<u8>) -> bool {
    plaintext.len() <= 0x10_0000_0000
}

/// `aes_gcm::aead::Aead::encrypt` of `Aes256Gcm`. It fails exactly when
/// the plaintext is longer than 2^36 bytes. The ciphertext is a function of
/// key, nonce and plaintext, is 16 bytes longer than the plaintext, and
/// decrypts under the same key and nonce to the plaintext.
#[verifier::external_body]
pub(crate) fn aes_gcm_encrypt(key: &[u8; 32], nonce: &[u8; 12], plaintext: &[u8]) -> (sealed: Result<
    Vec<u8>,
    aes_gcm::Error,
>)
    ensures
        sealed is Ok <==> sealable(plaintext@),
        sealed matches Ok(ciphertext) ==> ciphertext@ == aes256_gcm_seal(
            key@,
            nonce@,
            plaintext@,
        ),
        sealed matches Ok(ciphertext) ==> ciphertext@.len() == plaintext@.len() + TAG_SIZE,
        sealed matches Ok(ciphertext) ==> aes256_gcm_open(key@, nonce@, ciphertext@) == Some(
            plaintext@,
        ),
{
    Aes256Gcm::new(key.into()).encrypt(nonce.into(), plaintext)
}

/// `aes_gcm::aead::Aead::decrypt` of `Aes256Gcm`. Whether it succeeds, and
/// with which plaintext, is a function of key, nonce and ciphertext. A
/// plaintext is 16 bytes shorter than its ciphertext.
#[verifier::external_body]
pub(crate) fn aes_gcm_decrypt(key: &[u8; 32], nonce: &[u8; 12], ciphertext: &[u8]) -> (opened: Result<
    Vec<u8>,
    aes_gcm::Error,
>)
    ensures
        match opened {
            Ok(plaintext) => aes256_gcm_open(key@, nonce@, ciphertext@) == Some(plaintext@),
            Err(_) => aes256_gcm_open(key@, nonce@, ciphertext@) is None,
        },
        opened matches Ok(plaintext) ==> plaintext@.len() + TAG_SIZE == ciphertext@.len(),
{
    Aes256Gcm::new(key.into()).decrypt(nonce.into(), ciphertext)
}

} // verus!
