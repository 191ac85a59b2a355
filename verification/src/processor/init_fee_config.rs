//! InitFeeConfig: initializes the fee configuration PDA.
//!
//! Accounts: 0. `[signer, writable]` payer; 1. `[writable]` fee config PDA, derived
//! from `["fee_config"]`; 2. `[]` system program.
//! Data: authority (32 bytes), recipient (32 bytes).

use vstd::prelude::*;

use crate::account::AccountView;
use crate::bytes::copy_into;
use crate::error::ProgramError;
use crate::pubkey::{found_program_address, pubkey_eq, Pubkey};
use crate::state::fee::{
    derive_fee_config, fee_authority, fee_config_seed, fee_recipient, is_fee_config, offsets,
    pending_recipient, pending_valid_at, zero_pubkey, FEE_CONFIG_DISCRIMINATOR, FEE_CONFIG_SIZE,
};

verus! {

/// What the instruction asks the runtime to do: create the fee config PDA (with
/// `FEE_CONFIG_SIZE` bytes, signed by the seeds `["fee_config", bump]`) and then hold
/// `data` in it.
pub struct FeeConfigInit {
    pub bump: u8,
    pub data: Vec<u8>,
}

/// The data of a freshly initialized fee config: discriminator, authority,
/// recipient, no pending recipient, no pending slot.
pub open spec fn initial_fee_config(authority: Seq<u8>, recipient: Seq<u8>) -> Seq<u8> {
    seq![FEE_CONFIG_DISCRIMINATOR] + authority + recipient + zero_pubkey()
        + vstd::bytes::spec_u64_to_le_bytes(0)
}

/// The outcome of an InitFeeConfig instruction whose fee config account must be
/// `fee_config_address`: the bump seed and data of the new account, or the error.
pub open spec fn init_fee_config_outcome(
    accounts: Seq<AccountView>,
    instruction_data: Seq<u8>,
    fee_config_address: Seq<u8>,
    bump: u8,
) -> Result<(u8, Seq<u8>), ProgramError> {
    match init_accounts_outcome(accounts, instruction_data) {
        Err(e) => Err(e),
        Ok(()) => if accounts[1].key@ != fee_config_address {
            Err(ProgramError::InvalidSeeds)
        } else if accounts[1].data@.len() > 0 && accounts[1].data@[offsets::DISCRIMINATOR as int] != 0 {
            Err(ProgramError::AccountAlreadyInitialized)
        } else {
            Ok(
                (
                    bump,
                    initial_fee_config(
                        instruction_data.subrange(0, 32),
                        instruction_data.subrange(32, 64),
                    ),
                ),
            )
        },
    }
}

/// The checks of InitFeeConfig that come before the fee config PDA is derived: the
/// instruction data, the accounts and the payer's signature.
pub open spec fn init_accounts_outcome(accounts: Seq<AccountView>, instruction_data: Seq<u8>) -> Result<
    (),
    ProgramError,
> {
    if instruction_data.len() < 64 {
        Err(ProgramError::InvalidInstructionData)
    } else if accounts.len() < 3 {
        Err(ProgramError::NotEnoughAccountKeys)
    } else if !accounts[0].is_signer {
        Err(ProgramError::MissingRequiredSignature)
    } else {
        Ok(())
    }
}

/// Takes the checks of InitFeeConfig that come before the fee config PDA is derived.
pub fn check_init_accounts(accounts: &[AccountView], instruction_data: &[u8]) -> (r: Result<(), ProgramError>)
    ensures
        r == init_accounts_outcome(accounts@, instruction_data@),
{
    if instruction_data.len() < 64 {
        return Err(ProgramError::InvalidInstructionData);
    }
    if accounts.len() < 3 {
        return Err(ProgramError::NotEnoughAccountKeys);
    }
    if !accounts[0].is_signer {
        return Err(ProgramError::MissingRequiredSignature);
    }
    Ok(())
}

/// A plan and a sequence result that agree.
pub open spec fn same_init(r: Result<FeeConfigInit, ProgramError>, s: Result<(u8, Seq<u8>), ProgramError>) -> bool {
    match (r, s) {
        (Ok(p), Ok((b, d))) => p.bump == b && p.data@ == d,
        (Err(e), Err(f)) => e == f,
        _ => false,
    }
}

/// Parses the instruction data: the authority and the recipient.
pub fn parse_fee_config_keys(instruction_data: &[u8]) -> (r: Result<(Pubkey, Pubkey), ProgramError>)
    ensures
        instruction_data@.len() < 64 ==> r == Err::<(Pubkey, Pubkey), ProgramError>(
            ProgramError::InvalidInstructionData,
        ),
        r matches Ok((authority, recipient)) ==> instruction_data@.len() >= 64
            && authority@ == instruction_data@.subrange(0, 32) && recipient@
            == instruction_data@.subrange(32, 64),
        instruction_data@.len() >= 64 ==> r is Ok,
{
    if instruction_data.len() < 64 {
        return Err(ProgramError::InvalidInstructionData);
    }
    let authority = crate::bytes::read_array32(instruction_data, 0);
    let recipient = crate::bytes::read_array32(instruction_data, 32);
    Ok((authority, recipient))
}

/// Builds the data of a fresh fee config.
pub fn initial_fee_config_data(authority: &Pubkey, recipient: &Pubkey) -> (d: Vec<u8>)
    ensures
        d@ == initial_fee_config(authority@, recipient@),
{
    let mut d: Vec<u8> = Vec::new();
    let mut i: usize = 0;
    while i < FEE_CONFIG_SIZE
        invariant
            i <= FEE_CONFIG_SIZE,
            d@ == Seq::new(i as nat, |k: int| 0u8),
        decreases FEE_CONFIG_SIZE - i,
    {
        d.push(0);
        assert(d@ =~= Seq::new((i + 1) as nat, |k: int| 0u8));
        i = i + 1;
    }
    d.set(offsets::DISCRIMINATOR, FEE_CONFIG_DISCRIMINATOR);
    copy_into(&mut d, offsets::AUTHORITY, vstd::array::array_as_slice(authority));
    copy_into(&mut d, offsets::RECIPIENT, vstd::array::array_as_slice(recipient));
    assert(d@ =~= initial_fee_config(authority@, recipient@)) by {
        vstd::bytes::lemma_auto_spec_u64_to_from_le_bytes();
        vstd::bytes::spec_u64_to_le_bytes_to_open(0);
        assert(0u64 & 0xffu64 == 0u64) by (bit_vector);
        assert((0u64 >> 8u64) & 0xffu64 == 0u64) by (bit_vector);
        assert((0u64 >> 16u64) & 0xffu64 == 0u64) by (bit_vector);
        assert((0u64 >> 24u64) & 0xffu64 == 0u64) by (bit_vector);
        assert((0u64 >> 32u64) & 0xffu64 == 0u64) by (bit_vector);
        assert((0u64 >> 40u64) & 0xffu64 == 0u64) by (bit_vector);
        assert((0u64 >> 48u64) & 0xffu64 == 0u64) by (bit_vector);
        assert((0u64 >> 56u64) & 0xffu64 == 0u64) by (bit_vector);
    }
    d
}

/// Processes InitFeeConfig once the fee config address and bump seed are known.
pub fn process_with_fee_config_address(
    accounts: &[AccountView],
    instruction_data: &[u8],
    fee_config_address: &Pubkey,
    bump: u8,
) -> (r: Result<FeeConfigInit, ProgramError>)
    ensures
        same_init(r, init_fee_config_outcome(accounts@, instruction_data@, fee_config_address@, bump)),
{
    match check_init_accounts(accounts, instruction_data) {
        Ok(()) => {},
        Err(e) => return Err(e),
    }
    let (authority, recipient) = match parse_fee_config_keys(instruction_data) {
        Ok(keys) => keys,
        Err(e) => return Err(e),
    };
    let fee_config = &accounts[1];
    if !pubkey_eq(&fee_config.key, fee_config_address) {
        return Err(ProgramError::InvalidSeeds);
    }
    // Already initialized: the discriminator is set.
    if fee_config.data.len() > 0 && fee_config.data[offsets::DISCRIMINATOR] != 0 {
        return Err(ProgramError::AccountAlreadyInitialized);
    }
    Ok(FeeConfigInit { bump, data: initial_fee_config_data(&authority, &recipient) })
}

/// Processes the InitFeeConfig instruction: checks the instruction data, the accounts
/// and the payer's signature, derives the fee config PDA, checks the fee config account
/// and returns what to create. It can be called only once: a fee config whose
/// discriminator is set is refused with `AccountAlreadyInitialized`. Where the PDA
/// cannot be derived, it fails with `InvalidSeeds`.
pub fn process(program_id: &Pubkey, accounts: &[AccountView], instruction_data: &[u8]) -> (r: Result<
    FeeConfigInit,
    ProgramError,
>)
    ensures
        init_accounts_outcome(accounts@, instruction_data@) is Err ==> r == Err::<FeeConfigInit, ProgramError>(
            init_accounts_outcome(accounts@, instruction_data@)->Err_0,
        ),
        init_accounts_outcome(accounts@, instruction_data@) is Ok ==> (r == Err::<FeeConfigInit, ProgramError>(
            ProgramError::InvalidSeeds,
        ) || same_init(
            r,
            init_fee_config_outcome(
                accounts@,
                instruction_data@,
                found_program_address(seq![fee_config_seed()], program_id@).0,
                found_program_address(seq![fee_config_seed()], program_id@).1,
            ),
        )),
{
    match check_init_accounts(accounts, instruction_data) {
        Ok(()) => {},
        Err(e) => return Err(e),
    }
    match derive_fee_config(program_id) {
        Some((address, bump)) => process_with_fee_config_address(
            accounts,
            instruction_data,
            &address,
            bump,
        ),
        None => Err(ProgramError::InvalidSeeds),
    }
}

/// A freshly initialized fee config is a fee config with the given authority and
/// recipient and nothing staged; and a second InitFeeConfig on it is refused.
pub proof fn lemma_initial_fee_config(authority: Seq<u8>, recipient: Seq<u8>)
    requires
        authority.len() == 32,
        recipient.len() == 32,
    ensures
        is_fee_config(initial_fee_config(authority, recipient)),
        initial_fee_config(authority, recipient).len() == FEE_CONFIG_SIZE,
        fee_authority(initial_fee_config(authority, recipient)) == authority,
        fee_recipient(initial_fee_config(authority, recipient)) == recipient,
        pending_recipient(initial_fee_config(authority, recipient)) == zero_pubkey(),
        pending_valid_at(initial_fee_config(authority, recipient)) == 0,
        initial_fee_config(authority, recipient)[offsets::DISCRIMINATOR as int] != 0,
{
    vstd::bytes::lemma_auto_spec_u64_to_from_le_bytes();
    let d = initial_fee_config(authority, recipient);
    assert(fee_authority(d) =~= authority);
    assert(fee_recipient(d) =~= recipient);
    assert(pending_recipient(d) =~= zero_pubkey());
    assert(d.subrange(97, 105) =~= vstd::bytes::spec_u64_to_le_bytes(0));
}


/// After initialization, the authority's first update stages the new recipient behind
/// the timelock and leaves the initial recipient in place.
pub proof fn lemma_init_then_update(authority: Seq<u8>, recipient: Seq<u8>, new_recipient: Seq<u8>, slot: u64)
    requires
        authority.len() == 32,
        recipient.len() == 32,
        new_recipient.len() == 32,
        slot + crate::state::fee::TIMELOCK_SLOTS <= u64::MAX,
    ensures
        crate::processor::update_fee_recipient::updated_fee_config(
            initial_fee_config(authority, recipient),
            authority,
            new_recipient,
            slot,
        ) matches Ok(d) && {
            &&& fee_recipient(d) == recipient
            &&& pending_recipient(d) == new_recipient
            &&& pending_valid_at(d) == slot + crate::state::fee::TIMELOCK_SLOTS
            &&& fee_authority(d) == authority
        },
{
    lemma_initial_fee_config(authority, recipient);
    let data = initial_fee_config(authority, recipient);
    crate::processor::update_fee_recipient::lemma_stage_then_apply(
        data,
        authority,
        new_recipient,
        new_recipient,
        slot,
        (slot + crate::state::fee::TIMELOCK_SLOTS) as u64,
    );
    crate::processor::update_fee_recipient::lemma_update_keeps_config(data, authority, new_recipient, slot);
}


/// InitFeeConfig can only be called once: on a fee config that holds the data of a
/// previous initialization, a call that passes every other check is refused with
/// `AccountAlreadyInitialized`.
pub proof fn lemma_init_only_once(
    accounts: Seq<AccountView>,
    instruction_data: Seq<u8>,
    fee_config_address: Seq<u8>,
    bump: u8,
    authority: Seq<u8>,
    recipient: Seq<u8>,
)
    requires
        authority.len() == 32,
        recipient.len() == 32,
        instruction_data.len() >= 64,
        accounts.len() >= 3,
        accounts[0].is_signer,
        accounts[1].key@ == fee_config_address,
        accounts[1].data@ == initial_fee_config(authority, recipient),
    ensures
        init_fee_config_outcome(accounts, instruction_data, fee_config_address, bump) == Err::<
            (u8, Seq<u8>),
            ProgramError,
        >(ProgramError::AccountAlreadyInitialized),
{
    lemma_initial_fee_config(authority, recipient);
}

} // verus!
