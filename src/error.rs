use vstd::prelude::*;

verus! {

/// The failures that an inbox or registry operation can report.
#[derive(Debug, Clone, Copy, PartialEq, Eq, Structural)]
pub enum ErrorCode {
    /// An encrypted link is longer than the per-record bound.
    PayloadTooLarge,
    /// The inbox already holds as many records as it can.
    InboxFull,
    /// A compressed curve point is ill-formed or not on the curve.
    InvalidKey,
    /// A signature has the wrong width or lacks its recovery byte.
    MalformedSignature,
    /// The key recovered from a signature is not the claimed identity.
    SignatureInvalid,
    /// A required signature is absent or does not verify.
    Unauthorized,
    /// The storage slot presented is not the derived address.
    AddressMismatch,
    /// The slot was already initialized.
    AlreadyInitialized,
    /// The slot has not been initialized yet.
    UninitializedAccount,
    /// The storage slot's bytes do not decode.
    InvalidAccountData,
    /// The instruction's bytes do not decode.
    InvalidInstructionData,
}

impl ErrorCode {
    /// A short human-readable diagnostic for this failure.
    pub fn message(&self) -> (r: String) {
        match self {
            ErrorCode::PayloadTooLarge => String::from_str("encrypted link is too large"),
            ErrorCode::InboxFull => String::from_str("inbox is full"),
            ErrorCode::InvalidKey => String::from_str("invalid EC public key"),
            ErrorCode::MalformedSignature => String::from_str("malformed signature"),
            ErrorCode::SignatureInvalid => String::from_str("EC public key mismatch"),
            ErrorCode::Unauthorized => String::from_str("unauthorized"),
            ErrorCode::AddressMismatch => String::from_str("invalid derived address"),
            ErrorCode::AlreadyInitialized => String::from_str("account already initialized"),
            ErrorCode::UninitializedAccount => String::from_str("account not initialized"),
            ErrorCode::InvalidAccountData => String::from_str("invalid account data"),
            ErrorCode::InvalidInstructionData => String::from_str("invalid instruction data"),
        }
    }
}

} // verus!
