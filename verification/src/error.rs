//! The ways in which a workflow can end without a result.

use vstd::prelude::*;
use vstd::string::*;

verus! {

/// Why a workflow stopped. Every one of these ends the run; none is retried
/// or papered over.
#[derive(Debug, Clone, Copy, PartialEq, Eq, Structural)]
pub enum Error {
    /// The key exchange with the remote application did not yield its public
    /// key together with a successful status.
    HandshakeFailed,
    /// The remote application did not hand out an identifier for a new
    /// association: it declined, or gave up waiting for approval.
    AssociationDeclined,
    /// None of the stored identities was confirmed by the remote application.
    NoValidIdentities,
    /// No login is left for the requested URL once expired entries are dropped.
    NoMatchingLogin,
    /// A ciphertext could not be authenticated, or what came with it (its
    /// encoding, its nonce) was not what had to be there.
    DecryptionFailed,
    /// A plaintext could not be sealed.
    EncryptionFailed,
    /// Sealed entries exist but the key that opens them cannot be had.
    EncryptionKeyUnavailable,
    /// The remote application reported a failure or answered out of form.
    RemoteRequestFailed,
    /// No identity has been registered yet.
    ConfigurationMissing,
    /// The calling tool left out a field that the operation needs.
    MalformedCredentialRequest,
    /// The operation would have to guess among several identities.
    UnsupportedOperation,
}

impl Error {
    /// The text shown to the user for this error.
    pub open spec fn message_text(self) -> Seq<char> {
        match self {
            Error::HandshakeFailed => "Failed to retrieve host public key"@,
            Error::AssociationDeclined => "Association failed"@,
            Error::NoValidIdentities => "No valid database associations found in configuration file"@,
            Error::NoMatchingLogin => "No matching logins found"@,
            Error::DecryptionFailed => "Failed to decrypt"@,
            Error::EncryptionFailed => "Failed to encrypt"@,
            Error::EncryptionKeyUnavailable => "No usable encryption profile found"@,
            Error::RemoteRequestFailed => "Request to the remote application failed"@,
            Error::ConfigurationMissing => "No database has been configured yet"@,
            Error::MalformedCredentialRequest => "Credential request lacks a required field"@,
            Error::UnsupportedOperation => "Updating a login with several databases configured is not supported"@,
        }
    }

    /// A human-readable description of the error.
    pub fn message(&self) -> (text: String)
        ensures
            text@ == self.message_text(),
    {
        match self {
            Error::HandshakeFailed => String::from_str("Failed to retrieve host public key"),
            Error::AssociationDeclined => String::from_str("Association failed"),
            Error::NoValidIdentities => String::from_str("No valid database associations found in configuration file"),
            Error::NoMatchingLogin => String::from_str("No matching logins found"),
            Error::DecryptionFailed => String::from_str("Failed to decrypt"),
            Error::EncryptionFailed => String::from_str("Failed to encrypt"),
            Error::EncryptionKeyUnavailable => String::from_str("No usable encryption profile found"),
            Error::RemoteRequestFailed => String::from_str("Request to the remote application failed"),
            Error::ConfigurationMissing => String::from_str("No database has been configured yet"),
            Error::MalformedCredentialRequest => String::from_str("Credential request lacks a required field"),
            Error::UnsupportedOperation => String::from_str("Updating a login with several databases configured is not supported"),
        }
    }
}

} // verus!
