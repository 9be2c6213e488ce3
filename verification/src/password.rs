//! Key derivation: from a master password and a salt to the vault's
//! 32-byte key, through Argon2id in its recommended default configuration.

use crate::error::VaultError;
use crate::secret::Secret;
use crate::secret::SecretKey;
use argon2::Argon2;
use vstd::prelude::*;
use vstd::utf8::encode_utf8;

verus! {

/// `argon2::Error`: why a hash was refused. Nothing is read from it.
#[verifier::external_type_specification]
#[verifier::external_body]
pub struct ExArgon2Error(argon2::Error);

/// The 32-byte Argon2id hash (version 0x13, 19 MiB of memory, 2 passes,
/// 1 lane) of `password` under `salt`.
pub uninterp spec fn argon2id_hash(password: Seq<u8>, salt: Seq<u8>) -> Seq<u8>;

/// The input lengths Argon2 accepts.
pub open spec fn hashable(password: Seq<u8>, salt: Seq<u8>) -> bool {
    password.len() <= 0xFFFF_FFFF && 8 <= salt.len() <= 0xFFFF_FFFF
}

/// `argon2::Argon2::hash_password_into` on the default instance, into a
/// 32-byte output. It fails exactly when the password is longer than
/// 2^32 - 1 bytes or the salt is shorter than 8 or longer than 2^32 - 1
/// bytes; otherwise the output is a function of password and salt alone.
#[verifier::external_body]
fn argon2_hash(password: &[u8], salt: &[u8]) -> (hash: Result<[u8; 32], argon2::Error>)
    ensures
        hash is Ok <==> hashable(password@, salt@),
        hash matches Ok(bytes) ==> bytes@ == argon2id_hash(password@, salt@),
{
    let mut bytes = [0u8; 32];
    match Argon2::default().hash_password_into(password, salt, &mut bytes) {
        Ok(()) => Ok(bytes),
        Err(error) => Err(error),
    }
}

/// Whether a key can be derived from `password` and `salt`.
pub open spec fn can_derive(password: Seq<char>, salt: Seq<u8>) -> bool {
    hashable(encode_utf8(password), salt)
}

/// The key that `password` and `salt` determine.
pub open spec fn derived_key(password: Seq<char>, salt: Seq<u8>) -> Seq<u8> {
    argon2id_hash(encode_utf8(password), salt)
}

/// Turns the outcome of the hash into the outcome of key derivation: the
/// hash becomes the key, any failure becomes `KeyDerivation`.
pub fn key_from_hash(hash: Result<[u8; 32], argon2::Error>) -> (key: Result<SecretKey, VaultError>)
    ensures
        match hash {
            Ok(bytes) => key matches Ok(k) && k@ == bytes@,
            Err(_) => key matches Err(e) && e == VaultError::KeyDerivation,
        },
{
    match hash {
        Ok(bytes) => Ok(SecretKey::new(bytes)),
        Err(_) => Err(VaultError::KeyDerivation),
    }
}

/// Derives the vault key from the master password and the vault's salt.
///
/// The key depends on nothing but the password's UTF-8 bytes and the salt.
/// Derivation fails with `KeyDerivation` exactly when the hash rejects the
/// lengths of its inputs.
pub fn derive_secret_key(master_password: &Secret, salt: &[u8]) -> (key: Result<
    SecretKey,
    VaultError,
>)
    ensures
        match key {
            Ok(k) => can_derive(master_password@, salt@) && k@ == derived_key(
                master_password@,
                salt@,
            ),
            Err(e) => e == VaultError::KeyDerivation && !can_derive(master_password@, salt@),
        },
{
    let password = master_password.expose();
    key_from_hash(argon2_hash(password.as_bytes(), salt))
}

} // verus!
