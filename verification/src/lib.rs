//! An encrypted credential vault: key derivation, authenticated encryption
//! of the vault file, and the entry collection it protects.
//!
//! A vault file is `salt || nonce || ciphertext`. [`vault::Vault::load`]
//! tells an empty file (no vault yet) from a sealed one;
//! [`vault::Vault::from_encrypted`] opens a sealed one with the master
//! password and hands out the decrypted payload, the serialized entries.
//! Reading and writing that payload is left to the caller, as are files,
//! prompts and the clipboard: this crate works on bytes and values only.
//! Entries are added, replaced, removed, looked up and listed on a
//! [`vault::Vault`], and [`vault::Vault::save`] turns a payload into the
//! bytes of the next vault file, under a nonce of its own.
//!
//! The entry collection is modelled in [`collection`] as entries in the
//! order of their ids and as the mapping from id to entry; the laws that
//! hold of adding, removing and listing are proved there, and the round
//! trip of encryption and decryption in [`codec`].

pub mod cipher;
pub mod codec;
pub mod collection;
pub mod command;
pub mod entry;
pub mod error;
pub mod ident;
pub mod password;
pub mod random;
pub mod report;
pub mod secret;
pub mod timestamp;
pub mod vault;
