//! The failures the vault engine reports.

use vstd::prelude::*;

verus! {

/// Why a vault operation failed.
#[derive(Debug, Clone, Copy, PartialEq, Eq, Structural)]
pub enum VaultError {
    /// The vault data is malformed: the header is too short, or the
    /// decrypted payload is not an entry collection.
    Format,
    /// Decryption failed its integrity check. A wrong master password and
    /// tampered data are deliberately not told apart.
    Authentication,
    /// The password hashing primitive rejected its inputs.
    KeyDerivation,
    /// No entry has the requested id.
    NotFound,
    /// The encryption primitive failed.
    Encryption,
}

impl VaultError {
    /// The text shown to the user for this failure.
    pub open spec fn spec_message(self) -> Seq<char> {
        match self {
            VaultError::Format => "vault data is corrupted"@,
            VaultError::Authentication => "failed to unlock vault"@,
            VaultError::KeyDerivation => "error hashing master password"@,
            VaultError::NotFound => "entry not found"@,
            VaultError::Encryption => "encryption failed"@,
        }
    }

    /// A human-readable message. `Authentication` has one generic message,
    /// whatever the cause.
    pub fn message(&self) -> (text: &'static str)
        ensures
            text@ == self.spec_message(),
    {
        match self {
            VaultError::Format => "vault data is corrupted",
            VaultError::Authentication => "failed to unlock vault",
            VaultError::KeyDerivation => "error hashing master password",
            VaultError::NotFound => "entry not found",
            VaultError::Encryption => "encryption failed",
        }
    }
}

} // verus!
