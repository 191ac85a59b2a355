//! Errors of the program: its own authentication errors, and the program errors
//! that the Solana runtime reports.

use vstd::prelude::*;

verus! {

/// Authentication and authorization failures.
#[derive(Debug, Clone, Copy, PartialEq, Eq, Structural)]
pub enum AuthError {
    InvalidAuthorityPayload,
    InvalidMessageHash,
    InvalidMessage,
    PermissionDenied,
    SignatureReused,
    InvalidPubkey,
    InvalidInstruction,
    InvalidAuthenticationKind,
    SessionExpired,
    SelfReentrancyNotAllowed,
    SpendingLimitExceeded,
}

/// The errors that an instruction of the program ends with.
#[derive(Debug, Clone, Copy, PartialEq, Eq, Structural)]
pub enum ProgramError {
    InvalidInstructionData,
    NotEnoughAccountKeys,
    MissingRequiredSignature,
    InvalidSeeds,
    AccountAlreadyInitialized,
    IllegalOwner,
    InvalidAccountData,
    ArithmeticOverflow,
    IncorrectProgramId,
    /// An error code of the program that is not an authentication error.
    Custom(u32),
    /// An authentication error, reported as a custom error of the program.
    Auth(AuthError),
}

} // verus!
