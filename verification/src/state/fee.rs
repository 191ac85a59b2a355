//! The fee configuration account: who may change the fee recipient, who receives
//! the fees, and a recipient change staged behind a timelock.

use vstd::prelude::*;
use vstd::string::StringSliceAdditionalSpecFns;

use crate::bytes::u64_le_at;
use crate::pubkey::{found_program_address, try_find_program_address, Pubkey};
pub use crate::pubkey::zero_pubkey;

pub mod offsets;

verus! {

/// Fee config account size:
/// discriminator(1) + authority(32) + recipient(32) + pending_authority(32) +
/// pending_authority_valid_at(8).
pub const FEE_CONFIG_SIZE: usize = 105;

/// Fee config discriminator.
pub const FEE_CONFIG_DISCRIMINATOR: u8 = 4;

/// Timelock duration: ~24 hours at 400ms/slot = 216,000 slots.
pub const TIMELOCK_SLOTS: u64 = 216_000;

/// Fee config PDA seed: `fee_config`.
pub open spec fn fee_config_seed() -> Seq<u8> {
    "fee_config".spec_bytes()
}

/// The admin who may change the fee recipient.
pub open spec fn fee_authority(data: Seq<u8>) -> Seq<u8> {
    data.subrange(offsets::AUTHORITY as int, offsets::RECIPIENT as int)
}

/// The account that receives protocol fees.
pub open spec fn fee_recipient(data: Seq<u8>) -> Seq<u8> {
    data.subrange(offsets::RECIPIENT as int, offsets::PENDING_AUTHORITY as int)
}

/// The staged fee recipient.
pub open spec fn pending_recipient(data: Seq<u8>) -> Seq<u8> {
    data.subrange(offsets::PENDING_AUTHORITY as int, offsets::PENDING_AUTHORITY_VALID_AT as int)
}

/// The slot from which the staged recipient may be applied; 0 when nothing is staged.
pub open spec fn pending_valid_at(data: Seq<u8>) -> u64 {
    u64_le_at(data, offsets::PENDING_AUTHORITY_VALID_AT as int)
}

/// Data that is a well-formed fee config account.
pub open spec fn is_fee_config(data: Seq<u8>) -> bool {
    data.len() >= FEE_CONFIG_SIZE && data[offsets::DISCRIMINATOR as int] == FEE_CONFIG_DISCRIMINATOR
}

/// Derives the fee config PDA. `None` where the runtime finds no bump seed (and on
/// any target other than the Solana runtime).
pub fn derive_fee_config(program_id: &Pubkey) -> (r: Option<(Pubkey, u8)>)
    ensures
        r matches Some((address, bump)) ==> (address@, bump) == found_program_address(
            seq![fee_config_seed()],
            program_id@,
        ),
{
    let seed: &[u8] = "fee_config".as_bytes();
    let mut seeds: Vec<&[u8]> = Vec::new();
    seeds.push(seed);
    let seeds_slice = seeds.as_slice();
    proof {
        assert(seed.deep_view() =~= seed@);
        assert(seeds_slice@[0] == seed);
        assert(seeds_slice.deep_view() =~= seq![fee_config_seed()]);
    }
    try_find_program_address(seeds_slice, program_id)
}

} // verus!
