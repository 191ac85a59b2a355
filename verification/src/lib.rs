//! Verified core of a Solana smart-wallet program: WebAuthn (secp256r1)
//! client-data handling, the authenticator payload layout, the fee
//! configuration and session account state, and the decisions that the
//! instruction processors take on them.

pub mod account;
pub mod base64url;
pub mod bytes;
pub mod entrypoint;
pub mod error;
pub mod processor;
pub mod pubkey;
pub mod secp256r1;
pub mod state;
pub mod webauthn;

use vstd::prelude::*;

verus! {

/// Base fee in lamports (0.000005 SOL).
pub const BASE_FEE_LAMPORTS: u64 = 5_000;

} // verus!
