//! The failures that the storage engine reports to its caller.

use vstd::prelude::*;

verus! {

#[derive(Debug, Clone, Copy, PartialEq, Eq, Structural)]
pub enum VaultError {
    /// The bytes cannot be a vault: too short for the header, or the
    /// decrypted payload does not decode to a vault.
    Format,
    /// The authentication tag does not match: wrong passphrase or altered
    /// bytes.
    Authentication,
    /// Key derivation refused its parameters or its input.
    Derivation,
    /// The payload is longer than one encryption call may take.
    TooLarge,
    /// The vault could not be encoded.
    Encoding,
    /// The operation needs an unlocked vault, or needs none to be open.
    WrongState,
    /// No item has the given id.
    NoSuchItem,
    /// Every id has been handed out.
    IdsExhausted,
}

impl VaultError {
    /// Whether retrying with another passphrase or file may help. A failed
    /// authentication and a malformed file are not told apart here, so that
    /// a message built on this says nothing of why the file was refused.
    pub fn is_bad_file_or_passphrase(&self) -> (bad: bool)
        ensures
            bad == (*self == VaultError::Format || *self == VaultError::Authentication),
    {
        match self {
            VaultError::Format => true,
            VaultError::Authentication => true,
            _ => false,
        }
    }

    /// The text to show a user. Format and authentication failures share
    /// one text.
    pub fn user_message(&self) -> (text: &'static str)
        ensures
            text@ == user_text(*self),
    {
        match self {
            VaultError::Format => "Failed to open vault file",
            VaultError::Authentication => "Failed to open vault file",
            VaultError::Derivation => "Failed to derive key",
            VaultError::TooLarge => "Vault is too large to encrypt",
            VaultError::Encoding => "Failed to encode vault",
            VaultError::WrongState => "No vault is open",
            VaultError::NoSuchItem => "No such item",
            VaultError::IdsExhausted => "No item id is left",
        }
    }
}

/// The user-facing text of each failure.
pub open spec fn user_text(e: VaultError) -> Seq<char> {
    match e {
        VaultError::Format => "Failed to open vault file"@,
        VaultError::Authentication => "Failed to open vault file"@,
        VaultError::Derivation => "Failed to derive key"@,
        VaultError::TooLarge => "Vault is too large to encrypt"@,
        VaultError::Encoding => "Failed to encode vault"@,
        VaultError::WrongState => "No vault is open"@,
        VaultError::NoSuchItem => "No such item"@,
        VaultError::IdsExhausted => "No item id is left"@,
    }
}

/// A malformed file and a failed authentication show the user the same
/// text.
pub proof fn refused_files_read_alike()
    ensures
        user_text(VaultError::Format) == user_text(VaultError::Authentication),
{
}

} // verus!
