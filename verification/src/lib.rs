//! Keybolt vault: an encrypted local store for password, identity and card
//! entries. A single passphrase protects a structured document that is sealed
//! into one binary vault file; individual sensitive fields can additionally be
//! encrypted in place as compact text tokens.

use vstd::prelude::*;

pub mod crypto;
pub mod document;
pub mod encoding;
pub mod json;
pub mod envelope;
pub mod field;
pub mod json_parser;
pub mod session;
pub mod styles;

verus! {

/// The errors the storage subsystem can report.
///
/// Authentication failure deliberately does not say whether the passphrase
/// was wrong or the file was tampered with: the two are indistinguishable.
#[derive(Debug, Clone, Copy, PartialEq, Eq, Structural)]
pub enum VaultError {
    /// The AEAD tag did not verify: wrong passphrase or corrupted data.
    AuthenticationFailed,
    /// The vault file is structurally broken (for example, too short).
    CorruptFile,
    /// Decryption succeeded but the plaintext is not a valid document.
    CorruptDocument,
    /// A field token's length prefixes or bounds are malformed.
    InvalidFieldToken,
    /// The caller could not read or write the vault file.
    IoFailure,
}

impl VaultError {
    /// A short human-readable description of the error. Authentication
    /// failure is worded without saying which of the two causes occurred.
    pub fn describe(&self) -> (r: &'static str)
        ensures
            r@.len() > 0,
            self is AuthenticationFailed ==> r@ == "wrong passphrase or corrupted file"@,
            self is CorruptFile ==> r@ == "vault file is corrupted"@,
            self is CorruptDocument ==> r@ == "vault contents are corrupted"@,
            self is InvalidFieldToken ==> r@ == "malformed encrypted field token"@,
            self is IoFailure ==> r@ == "could not access the vault file"@,
    {
        let r = match self {
            VaultError::AuthenticationFailed => "wrong passphrase or corrupted file",
            VaultError::CorruptFile => "vault file is corrupted",
            VaultError::CorruptDocument => "vault contents are corrupted",
            VaultError::InvalidFieldToken => "malformed encrypted field token",
            VaultError::IoFailure => "could not access the vault file",
        };
        proof {
            reveal_strlit("wrong passphrase or corrupted file");
            reveal_strlit("vault file is corrupted");
            reveal_strlit("vault contents are corrupted");
            reveal_strlit("malformed encrypted field token");
            reveal_strlit("could not access the vault file");
        }
        r
    }
}

} // verus!
