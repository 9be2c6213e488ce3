//! The vault file: a fixed header followed by the encrypted payload.
//!
//! ```text
//! salt (32 bytes) || nonce (12 bytes) || ciphertext
//! ```
//!
//! There are no length prefixes. The payload is the serialized entry
//! collection; this module treats it as opaque bytes.

use crate::cipher::aes256_gcm_open;
use crate::cipher::aes256_gcm_seal;
use crate::cipher::aes_gcm_decrypt;
use crate::cipher::aes_gcm_encrypt;
use crate::cipher::sealable;
use crate::cipher::TAG_SIZE;
use crate::error::VaultError;
use crate::password::can_derive;
use crate::password::derived_key;
use crate::secret::SecretKey;
use vstd::prelude::*;
use vstd::slice::slice_subrange;

verus! {

/// The length of the salt that opens the file.
pub const SALT_SIZE: usize = 32;

/// The length of the nonce that follows the salt.
pub const NONCE_SIZE: usize = 12;

/// The length of the header: salt and nonce.
pub const HEADER_SIZE: usize = 44;

/// The salt stored in `file`.
pub open spec fn salt_of(file: Seq<u8>) -> Seq<u8> {
    file.subrange(0, SALT_SIZE as int)
}

/// The nonce stored in `file`.
pub open spec fn nonce_of(file: Seq<u8>) -> Seq<u8> {
    file.subrange(SALT_SIZE as int, HEADER_SIZE as int)
}

/// The ciphertext stored in `file`: everything after the header.
pub open spec fn ciphertext_of(file: Seq<u8>) -> Seq<u8> {
    file.subrange(HEADER_SIZE as int, file.len() as int)
}

/// The file that holds `ciphertext` under the header `salt`, `nonce`.
pub open spec fn framed(salt: Seq<u8>, nonce: Seq<u8>, ciphertext: Seq<u8>) -> Seq<u8> {
    salt + nonce + ciphertext
}

/// `file` is the encryption of `payload` under `key` and `nonce`, stored
/// with `salt`: it is framed as the layout prescribes, and its ciphertext
/// decrypts to `payload`.
pub open spec fn seals(
    file: Seq<u8>,
    payload: Seq<u8>,
    key: Seq<u8>,
    nonce: Seq<u8>,
    salt: Seq<u8>,
) -> bool {
    &&& file == framed(salt, nonce, aes256_gcm_seal(key, nonce, payload))
    &&& aes256_gcm_open(key, nonce, aes256_gcm_seal(key, nonce, payload)) == Some(payload)
}

/// What decrypting `file` with `key` yields: `Format` when the header is
/// incomplete, `Authentication` when the ciphertext does not authenticate
/// under `key` and the stored nonce, and the payload otherwise.
pub open spec fn opened_with_key(file: Seq<u8>, key: Seq<u8>) -> Result<Seq<u8>, VaultError> {
    if file.len() < HEADER_SIZE {
        Err(VaultError::Format)
    } else {
        match aes256_gcm_open(key, nonce_of(file), ciphertext_of(file)) {
            Some(payload) => Ok(payload),
            None => Err(VaultError::Authentication),
        }
    }
}

/// What decrypting `file` with the master password yields: as
/// `opened_with_key`, with the key derived from the password and the
/// stored salt.
pub open spec fn opened(file: Seq<u8>, password: Seq<char>) -> Result<Seq<u8>, VaultError> {
    if file.len() < HEADER_SIZE {
        Err(VaultError::Format)
    } else if !can_derive(password, salt_of(file)) {
        Err(VaultError::KeyDerivation)
    } else {
        opened_with_key(file, derived_key(password, salt_of(file)))
    }
}

/// The header of a vault file.
pub struct Header {
    pub salt: [u8; 32],
    pub nonce: [u8; 12],
}

/// Copies the `N` bytes of `data` that start at `start`.
pub(crate) fn copy_array<const N: usize>(data: &[u8], start: usize) -> (bytes: [u8; N])
    requires
        start + N <= data@.len(),
    ensures
        bytes@ == data@.subrange(start as int, start + N),
{
    let len: usize = data.len();
    let mut bytes = [0u8; N];
    let mut i: usize = 0;
    while i < N
        invariant
            i <= N,
            start + N <= data@.len() == len,
            bytes@.len() == N,
            forall|j: int| 0 <= j < i ==> bytes@[j] == data@[start + j],
        decreases N - i,
    {
        bytes[i] = data[start + i];
        i += 1;
    }
    assert(bytes@ =~= data@.subrange(start as int, start + N));
    bytes
}

/// Whether two arrays hold the same bytes.
pub(crate) fn same_bytes<const N: usize>(a: &[u8; N], b: &[u8; N]) -> (same: bool)
    ensures
        same == (a@ == b@),
{
    let mut i: usize = 0;
    while i < N
        invariant
            i <= N,
            a@.len() == N,
            b@.len() == N,
            forall|j: int| 0 <= j < i ==> a@[j] == b@[j],
        decreases N - i,
    {
        if a[i] != b[i] {
            return false;
        }
        i += 1;
    }
    assert(a@ =~= b@);
    true
}

/// Reads the header of a vault file. Fails with `Format` exactly when the
/// file is shorter than the header.
pub fn read_header(data: &[u8]) -> (header: Result<Header, VaultError>)
    ensures
        match header {
            Ok(h) => data@.len() >= HEADER_SIZE && h.salt@ == salt_of(data@) && h.nonce@
                == nonce_of(data@),
            Err(e) => e == VaultError::Format && data@.len() < HEADER_SIZE,
        },
{
    if data.len() < HEADER_SIZE {
        return Err(VaultError::Format);
    }
    let salt = copy_array::<32>(data, 0);
    let nonce = copy_array::<12>(data, SALT_SIZE);
    Ok(Header { salt, nonce })
}

/// Lays out a vault file: salt, then nonce, then ciphertext.
pub fn frame(salt: &[u8; 32], nonce: &[u8; 12], ciphertext: &[u8]) -> (file: Vec<u8>)
    ensures
        file@ == framed(salt@, nonce@, ciphertext@),
{
    let mut file: Vec<u8> = Vec::new();
    file.extend_from_slice(salt.as_slice());
    file.extend_from_slice(nonce.as_slice());
    file.extend_from_slice(ciphertext);
    file
}

/// Turns the outcome of the cipher into the outcome of `encrypt`: a
/// ciphertext is framed with `salt` and `nonce`, a failure becomes
/// `Encryption`.
pub fn file_from_sealed(
    salt: &[u8; 32],
    nonce: &[u8; 12],
    sealed: Result<Vec<u8>, aes_gcm::Error>,
) -> (file: Result<Vec<u8>, VaultError>)
    ensures
        match sealed {
            Ok(ciphertext) => file matches Ok(bytes) && bytes@ == framed(
                salt@,
                nonce@,
                ciphertext@,
            ),
            Err(_) => file matches Err(e) && e == VaultError::Encryption,
        },
{
    match sealed {
        Ok(ciphertext) => Ok(frame(salt, nonce, ciphertext.as_slice())),
        Err(_) => Err(VaultError::Encryption),
    }
}

/// Turns the outcome of the cipher into the outcome of `decrypt`: a
/// plaintext is the payload, a failure becomes `Authentication`, whatever
/// its cause.
pub fn payload_from_opened(opened: Result<Vec<u8>, aes_gcm::Error>) -> (payload: Result<
    Vec<u8>,
    VaultError,
>)
    ensures
        match opened {
            Ok(plaintext) => payload matches Ok(bytes) && bytes@ == plaintext@,
            Err(_) => payload matches Err(e) && e == VaultError::Authentication,
        },
{
    match opened {
        Ok(plaintext) => Ok(plaintext),
        Err(_) => Err(VaultError::Authentication),
    }
}

/// Encrypts `payload` under `key` and `nonce` and prepends the header.
///
/// Succeeds exactly when the cipher accepts the payload's length, and then
/// returns the one file that `seals` the payload: header and tag make it 60
/// bytes longer than the payload. The only failure is `Encryption`.
pub fn encrypt(payload: &[u8], key: &SecretKey, nonce: &[u8; 12], salt: &[u8; 32]) -> (file: Result<
    Vec<u8>,
    VaultError,
>)
    ensures
        match file {
            Ok(bytes) => {
                &&& sealable(payload@)
                &&& seals(bytes@, payload@, key@, nonce@, salt@)
                &&& bytes@.len() == payload@.len() + HEADER_SIZE + TAG_SIZE
            },
            Err(e) => e == VaultError::Encryption && !sealable(payload@),
        },
{
    let sealed = aes_gcm_encrypt(key.expose(), nonce, payload);
    file_from_sealed(salt, nonce, sealed)
}

/// Authenticates and decrypts a vault file with an already derived key.
///
/// The result is exactly `opened_with_key`. A payload is never returned
/// unless the ciphertext authenticates, and it is then shorter than the
/// file by the header and the tag.
pub fn decrypt(data: &[u8], key: &SecretKey) -> (payload: Result<Vec<u8>, VaultError>)
    ensures
        match payload {
            Ok(bytes) => opened_with_key(data@, key@) == Ok::<Seq<u8>, VaultError>(bytes@)
                && bytes@.len() + HEADER_SIZE + TAG_SIZE == data@.len(),
            Err(e) => opened_with_key(data@, key@) == Err::<Seq<u8>, VaultError>(e),
        },
{
    match read_header(data) {
        Err(e) => Err(e),
        Ok(header) => {
            let ciphertext = slice_subrange(data, HEADER_SIZE, data.len());
            payload_from_opened(aes_gcm_decrypt(key.expose(), &header.nonce, ciphertext))
        },
    }
}

/// A file that seals a payload under the key derived from a password and
/// the file's own salt opens, with that password, to that payload.
pub proof fn lemma_round_trip(
    file: Seq<u8>,
    payload: Seq<u8>,
    password: Seq<char>,
    nonce: Seq<u8>,
    salt: Seq<u8>,
)
    requires
        salt.len() == SALT_SIZE,
        nonce.len() == NONCE_SIZE,
        can_derive(password, salt),
        seals(file, payload, derived_key(password, salt), nonce, salt),
    ensures
        opened(file, password) == Ok::<Seq<u8>, VaultError>(payload),
{
    let ciphertext = aes256_gcm_seal(derived_key(password, salt), nonce, payload);
    assert(salt_of(file) =~= salt);
    assert(nonce_of(file) =~= nonce);
    assert(ciphertext_of(file) =~= ciphertext);
}

/// Opening fails with `Format` exactly when the file is shorter than the
/// header, whatever the password.
pub proof fn lemma_format_error_iff_short(file: Seq<u8>, password: Seq<char>)
    ensures
        opened(file, password) == Err::<Seq<u8>, VaultError>(VaultError::Format) <==> file.len()
            < HEADER_SIZE,
{
}

/// A framed file whose ciphertext the cipher does not authenticate under
/// the key of the given password opens to nothing but `Authentication`:
/// a wrong password and altered bytes end in the same failure, and never in
/// a payload.
pub proof fn lemma_unauthenticated_is_rejected(file: Seq<u8>, password: Seq<char>)
    requires
        file.len() >= HEADER_SIZE,
        can_derive(password, salt_of(file)),
        aes256_gcm_open(
            derived_key(password, salt_of(file)),
            nonce_of(file),
            ciphertext_of(file),
        ) is None,
    ensures
        opened(file, password) == Err::<Seq<u8>, VaultError>(VaultError::Authentication),
{
}

} // verus!
