//! Account discriminators and the authority account header, as the program reads them.

use vstd::prelude::*;

use crate::pubkey::Pubkey;

verus! {

/// Discriminator of wallet accounts.
pub const DISCRIMINATOR_WALLET: u8 = 1;

/// Discriminator of authority accounts.
pub const DISCRIMINATOR_AUTHORITY: u8 = 2;

/// Discriminator of session accounts.
pub const DISCRIMINATOR_SESSION: u8 = 3;

/// Authority type: an Ed25519 key that signs the transaction.
pub const AUTHORITY_TYPE_ED25519: u8 = 0;

/// Authority type: a secp256r1 (WebAuthn/passkey) credential.
pub const AUTHORITY_TYPE_SECP256R1: u8 = 1;

/// The fields of an authority account header that the program reads.
#[derive(Clone, Copy, Debug)]
pub struct AuthorityHeader {
    pub discriminator: u8,
    pub authority_type: u8,
    /// The wallet this authority belongs to.
    pub wallet: Pubkey,
    /// The last accepted authenticator signature counter (secp256r1).
    pub counter: u64,
}

} // verus!
