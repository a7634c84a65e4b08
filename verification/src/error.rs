//! The failure kinds of a transition attempt.

use vstd::prelude::*;

verus! {

/// Why a transition attempt, or a conversion at the boundary, was rejected.
///
/// Every kind is fatal to the attempt that raised it: no journal is produced
/// and nothing is retried.
#[derive(Debug, Clone, Copy, PartialEq, Eq, Structural)]
pub enum ProtocolError {
    /// The identity state could not be serialized.
    EncodingError,
    /// The recomputed prior commitment differs from the claimed one.
    CommitmentMismatch,
    /// The server's verifying key is not a valid SEC1 encoding.
    InvalidKeyEncoding,
    /// The server's signature is not a valid fixed-width encoding.
    InvalidSignatureEncoding,
    /// The signature does not verify over the prior commitment.
    InvalidServerAuthorization,
    /// A ticket of the identity is on the revocation list, or the identity
    /// was banned already.
    BannedIdentity,
    /// A boundary string is not a decimal 128-bit unsigned integer.
    InvalidNumericInput,
}

impl ProtocolError {
    /// The text of [`ProtocolError::message`].
    pub open spec fn message_text(self) -> Seq<char> {
        match self {
            ProtocolError::EncodingError => "serialization error"@,
            ProtocolError::CommitmentMismatch => "commitment mismatch"@,
            ProtocolError::InvalidKeyEncoding => "bad server vk"@,
            ProtocolError::InvalidSignatureEncoding => "bad sig bytes"@,
            ProtocolError::InvalidServerAuthorization => "server sig invalid"@,
            ProtocolError::BannedIdentity => "BANNED: user ticket was matched in callback list"@,
            ProtocolError::InvalidNumericInput => "invalid number (not a decimal u128)"@,
        }
    }

    /// A short description of the failure, for whoever reports it.
    pub fn message(&self) -> (text: &'static str)
        ensures
            text@ == self.message_text(),
    {
        match self {
            ProtocolError::EncodingError => "serialization error",
            ProtocolError::CommitmentMismatch => "commitment mismatch",
            ProtocolError::InvalidKeyEncoding => "bad server vk",
            ProtocolError::InvalidSignatureEncoding => "bad sig bytes",
            ProtocolError::InvalidServerAuthorization => "server sig invalid",
            ProtocolError::BannedIdentity => "BANNED: user ticket was matched in callback list",
            ProtocolError::InvalidNumericInput => "invalid number (not a decimal u128)",
        }
    }
}

} // verus!
