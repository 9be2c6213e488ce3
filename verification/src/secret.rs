//! Secret values that are wiped from memory when dropped.
//!
//! Both types keep their contents inside a `secrecy::SecretBox`, which
//! Verus does not look into: what a box holds is known only through
//! `secret_text` and `secret_key_bytes`. Reading a secret is always an
//! explicit call to `expose`.

use secrecy::ExposeSecret;
use secrecy::SecretBox;
use vstd::prelude::*;

verus! {

/// A secret string: a master password or a stored credential, held in a
/// `secrecy::SecretBox<String>`. Its `Debug` output is redacted.
#[derive(Debug)]
#[verifier::external_body]
pub struct Secret {
    inner: SecretBox<String>,
}

/// A 32-byte symmetric key, held in a `secrecy::SecretBox<[u8; 32]>`. Its
/// `Debug` output is redacted.
#[derive(Debug)]
#[verifier::external_body]
pub struct SecretKey {
    inner: SecretBox<[u8; 32]>,
}

/// The characters held by a `Secret`.
pub uninterp spec fn secret_text(secret: Secret) -> Seq<char>;

/// The bytes held by a `SecretKey`.
pub uninterp spec fn secret_key_bytes(key: SecretKey) -> Seq<u8>;

impl View for Secret {
    type V = Seq<char>;

    open spec fn view(&self) -> Seq<char> {
        secret_text(*self)
    }
}

impl View for SecretKey {
    type V = Seq<u8>;

    open spec fn view(&self) -> Seq<u8> {
        secret_key_bytes(*self)
    }
}

/// `secrecy::SecretBox::new` on a boxed `String`: the box holds exactly the
/// string it was given.
#[verifier::external_body]
fn seal_text(text: String) -> (secret: Secret)
    ensures
        secret_text(secret) == text@,
{
    Secret { inner: SecretBox::new(Box::new(text)) }
}

/// `secrecy::ExposeSecret::expose_secret` on a `SecretBox<String>`: a
/// reference to the string the box holds.
#[verifier::external_body]
fn expose_text(secret: &Secret) -> (text: &str)
    ensures
        text@ == secret_text(*secret),
{
    secret.inner.expose_secret().as_str()
}

/// `secrecy::SecretBox::new` on a boxed 32-byte array: the box holds exactly
/// the bytes it was given.
#[verifier::external_body]
fn seal_key(bytes: [u8; 32]) -> (key: SecretKey)
    ensures
        secret_key_bytes(key) == bytes@,
{
    SecretKey { inner: SecretBox::new(Box::new(bytes)) }
}

/// `secrecy::ExposeSecret::expose_secret` on a `SecretBox<[u8; 32]>`: a
/// reference to the bytes the box holds.
#[verifier::external_body]
fn expose_key(key: &SecretKey) -> (bytes: &[u8; 32])
    ensures
        bytes@ == secret_key_bytes(*key),
{
    key.inner.expose_secret()
}

impl Secret {
    /// Wraps `text` as a secret.
    pub fn new(text: String) -> (secret: Secret)
        ensures
            secret@ == text@,
    {
        seal_text(text)
    }

    /// Reveals the secret text. Every use of this call is a deliberate
    /// disclosure.
    pub fn expose(&self) -> (text: &str)
        ensures
            text@ == self@,
    {
        expose_text(self)
    }
}

impl SecretKey {
    /// Wraps `bytes` as a key.
    pub fn new(bytes: [u8; 32]) -> (key: SecretKey)
        ensures
            key@ == bytes@,
    {
        seal_key(bytes)
    }

    /// Reveals the key bytes.
    pub fn expose(&self) -> (bytes: &[u8; 32])
        ensures
            bytes@ == self@,
    {
        expose_key(self)
    }
}

} // verus!
