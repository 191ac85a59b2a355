//! UpdateFeeRecipient: updates the fee recipient with a 24-hour timelock.
//! The first call stages the change, a second call (after the timelock) applies it.

use vstd::prelude::*;

use crate::account::AccountView;
use crate::bytes::{copy_into, read_u64_le, splice};
use crate::error::ProgramError;
use crate::pubkey::{found_program_address, pubkey_eq, Pubkey};
use crate::state::fee::{
    derive_fee_config, fee_authority, fee_recipient, is_fee_config, fee_config_seed, offsets, pending_recipient,
    pending_valid_at, zero_pubkey, FEE_CONFIG_DISCRIMINATOR, FEE_CONFIG_SIZE, TIMELOCK_SLOTS,
};

verus! {

/// The error of an update whose timelock has not elapsed yet.
pub const TIMELOCK_NOT_ELAPSED: u32 = 1;

/// The fee config data after an update by `signer` with `new_recipient` at
/// `current_slot`, or the error that the update ends with.
pub open spec fn updated_fee_config(
    data: Seq<u8>,
    signer: Seq<u8>,
    new_recipient: Seq<u8>,
    current_slot: u64,
) -> Result<Seq<u8>, ProgramError> {
    if data.len() < FEE_CONFIG_SIZE {
        Err(ProgramError::InvalidAccountData)
    } else if data[offsets::DISCRIMINATOR as int] != FEE_CONFIG_DISCRIMINATOR {
        Err(ProgramError::InvalidAccountData)
    } else if fee_authority(data) != signer {
        Err(ProgramError::InvalidAccountData)
    } else if pending_valid_at(data) == 0 {
        // Nothing staged: stage the new recipient behind the timelock.
        if current_slot + TIMELOCK_SLOTS > u64::MAX {
            Err(ProgramError::ArithmeticOverflow)
        } else {
            Ok(
                splice(
                    splice(data, offsets::PENDING_AUTHORITY as int, new_recipient),
                    offsets::PENDING_AUTHORITY_VALID_AT as int,
                    vstd::bytes::spec_u64_to_le_bytes((current_slot + TIMELOCK_SLOTS) as u64),
                ),
            )
        }
    } else if current_slot >= pending_valid_at(data) {
        // The timelock has elapsed: apply the staged recipient, clear the staging.
        Ok(
            splice(
                splice(
                    splice(data, offsets::RECIPIENT as int, pending_recipient(data)),
                    offsets::PENDING_AUTHORITY as int,
                    zero_pubkey(),
                ),
                offsets::PENDING_AUTHORITY_VALID_AT as int,
                vstd::bytes::spec_u64_to_le_bytes(0),
            ),
        )
    } else {
        Err(ProgramError::Custom(TIMELOCK_NOT_ELAPSED))
    }
}

/// The outcome of an UpdateFeeRecipient instruction whose fee config account must
/// be `fee_config_address`: the new fee config data, or the error.
///
/// Accounts: 0. `[signer]` authority (must match the stored authority);
/// 1. `[writable]` fee config PDA. Data: `new_recipient(32)`.
pub open spec fn update_fee_recipient_outcome(
    program_id: Seq<u8>,
    accounts: Seq<AccountView>,
    instruction_data: Seq<u8>,
    current_slot: u64,
    fee_config_address: Seq<u8>,
) -> Result<Seq<u8>, ProgramError> {
    match update_accounts_outcome(program_id, accounts, instruction_data) {
        Err(e) => Err(e),
        Ok(()) => if accounts[1].key@ != fee_config_address {
            Err(ProgramError::InvalidSeeds)
        } else {
            updated_fee_config(accounts[1].data@, accounts[0].key@, instruction_data.take(32), current_slot)
        },
    }
}

/// The checks of UpdateFeeRecipient that come before the fee config PDA is derived:
/// the instruction data, the accounts, the authority's signature, and the fee config
/// being writable and owned by the program.
pub open spec fn update_accounts_outcome(
    program_id: Seq<u8>,
    accounts: Seq<AccountView>,
    instruction_data: Seq<u8>,
) -> Result<(), ProgramError> {
    if instruction_data.len() < 32 {
        Err(ProgramError::InvalidInstructionData)
    } else if accounts.len() < 2 {
        Err(ProgramError::NotEnoughAccountKeys)
    } else if !accounts[0].is_signer {
        Err(ProgramError::MissingRequiredSignature)
    } else if !accounts[1].is_writable {
        Err(ProgramError::InvalidAccountData)
    } else if accounts[1].owner@ != program_id {
        Err(ProgramError::IllegalOwner)
    } else {
        Ok(())
    }
}

/// Takes the checks of UpdateFeeRecipient that come before the fee config PDA is
/// derived.
pub fn check_update_accounts(program_id: &Pubkey, accounts: &[AccountView], instruction_data: &[u8]) -> (r: Result<
    (),
    ProgramError,
>)
    ensures
        r == update_accounts_outcome(program_id@, accounts@, instruction_data@),
{
    if instruction_data.len() < 32 {
        return Err(ProgramError::InvalidInstructionData);
    }
    if accounts.len() < 2 {
        return Err(ProgramError::NotEnoughAccountKeys);
    }
    if !accounts[0].is_signer {
        return Err(ProgramError::MissingRequiredSignature);
    }
    if !accounts[1].is_writable {
        return Err(ProgramError::InvalidAccountData);
    }
    if !pubkey_eq(&accounts[1].owner, program_id) {
        return Err(ProgramError::IllegalOwner);
    }
    Ok(())
}

/// A `Vec` result and a sequence result that agree.
pub open spec fn same_result(r: Result<Vec<u8>, ProgramError>, s: Result<Seq<u8>, ProgramError>) -> bool {
    match (r, s) {
        (Ok(v), Ok(t)) => v@ == t,
        (Err(e), Err(f)) => e == f,
        _ => false,
    }
}

fn u64_to_le_bytes(x: u64) -> (b: Vec<u8>)
    ensures
        b@ == vstd::bytes::spec_u64_to_le_bytes(x),
        b@.len() == 8,
{
    proof {
        vstd::bytes::lemma_auto_spec_u64_to_from_le_bytes();
    }
    vstd::bytes::u64_to_le_bytes(x)
}

/// Applies an update to the fee config data: the new data, or the error.
#[verifier::spinoff_prover]
pub fn update_fee_config(
    data: &[u8],
    signer: &Pubkey,
    new_recipient: &[u8],
    current_slot: u64,
) -> (r: Result<Vec<u8>, ProgramError>)
    requires
        new_recipient@.len() == 32,
    ensures
        same_result(r, updated_fee_config(data@, signer@, new_recipient@, current_slot)),
{
    if data.len() < FEE_CONFIG_SIZE {
        return Err(ProgramError::InvalidAccountData);
    }
    if data[offsets::DISCRIMINATOR] != FEE_CONFIG_DISCRIMINATOR {
        return Err(ProgramError::InvalidAccountData);
    }
    let stored_authority = crate::bytes::read_array32(data, offsets::AUTHORITY);
    if !pubkey_eq(&stored_authority, signer) {
        return Err(ProgramError::InvalidAccountData);
    }
    let mut out = vstd::slice::slice_to_vec(data);
    let valid_at = read_u64_le(data, offsets::PENDING_AUTHORITY_VALID_AT);
    if valid_at == 0 {
        copy_into(&mut out, offsets::PENDING_AUTHORITY, new_recipient);
        let staged_until = match current_slot.checked_add(TIMELOCK_SLOTS) {
            Some(v) => v,
            None => return Err(ProgramError::ArithmeticOverflow),
        };
        let b = u64_to_le_bytes(staged_until);
        copy_into(&mut out, offsets::PENDING_AUTHORITY_VALID_AT, b.as_slice());
    } else if current_slot >= valid_at {
        let pending = vstd::slice::slice_subrange(
            data,
            offsets::PENDING_AUTHORITY,
            offsets::PENDING_AUTHORITY + 32,
        );
        copy_into(&mut out, offsets::RECIPIENT, pending);
        let zero = crate::pubkey::zero_key();
        copy_into(&mut out, offsets::PENDING_AUTHORITY, vstd::array::array_as_slice(&zero));
        let b = u64_to_le_bytes(0);
        copy_into(&mut out, offsets::PENDING_AUTHORITY_VALID_AT, b.as_slice());
    } else {
        return Err(ProgramError::Custom(TIMELOCK_NOT_ELAPSED));
    }
    Ok(out)
}

/// Processes UpdateFeeRecipient once the fee config address is known: checks the
/// accounts, then applies the update to the fee config data.
pub fn process_with_fee_config_address(
    program_id: &Pubkey,
    accounts: &[AccountView],
    instruction_data: &[u8],
    current_slot: u64,
    fee_config_address: &Pubkey,
) -> (r: Result<Vec<u8>, ProgramError>)
    ensures
        same_result(
            r,
            update_fee_recipient_outcome(
                program_id@,
                accounts@,
                instruction_data@,
                current_slot,
                fee_config_address@,
            ),
        ),
{
    match check_update_accounts(program_id, accounts, instruction_data) {
        Ok(()) => {},
        Err(e) => return Err(e),
    }
    let new_recipient = vstd::slice::slice_subrange(instruction_data, 0, 32);
    let authority = &accounts[0];
    let fee_config = &accounts[1];
    if !pubkey_eq(&fee_config.key, fee_config_address) {
        return Err(ProgramError::InvalidSeeds);
    }
    update_fee_config(fee_config.data.as_slice(), &authority.key, new_recipient, current_slot)
}

/// Processes the UpdateFeeRecipient instruction: checks the instruction data and the
/// accounts, derives the fee config PDA and applies `process_with_fee_config_address`.
/// Where the PDA cannot be derived, the instruction fails with `InvalidSeeds`.
///
/// Flow:
/// 1. If no pending change (pending_valid_at == 0): stage new_recipient and set
///    pending_valid_at = current_slot + TIMELOCK_SLOTS.
/// 2. If the timelock elapsed (current_slot >= pending_valid_at > 0): apply the
///    pending recipient and clear the pending fields.
/// 3. Otherwise fail with `Custom(1)` (timelock not elapsed).
pub fn process(
    program_id: &Pubkey,
    accounts: &[AccountView],
    instruction_data: &[u8],
    current_slot: u64,
) -> (r: Result<Vec<u8>, ProgramError>)
    ensures
        update_accounts_outcome(program_id@, accounts@, instruction_data@) is Err ==> r
            == Err::<Vec<u8>, ProgramError>(
            update_accounts_outcome(program_id@, accounts@, instruction_data@)->Err_0,
        ),
        update_accounts_outcome(program_id@, accounts@, instruction_data@) is Ok ==> (r
            == Err::<Vec<u8>, ProgramError>(ProgramError::InvalidSeeds) || same_result(
            r,
            update_fee_recipient_outcome(
                program_id@,
                accounts@,
                instruction_data@,
                current_slot,
                found_program_address(seq![fee_config_seed()], program_id@).0,
            ),
        )),
{
    match check_update_accounts(program_id, accounts, instruction_data) {
        Ok(()) => {},
        Err(e) => return Err(e),
    }
    match derive_fee_config(program_id) {
        Some((address, _bump)) => process_with_fee_config_address(
            program_id,
            accounts,
            instruction_data,
            current_slot,
            &address,
        ),
        None => Err(ProgramError::InvalidSeeds),
    }
}


proof fn lemma_splice_parts(d: Seq<u8>, off: int, src: Seq<u8>)
    requires
        0 <= off,
        off + src.len() <= d.len(),
    ensures
        splice(d, off, src).len() == d.len(),
        splice(d, off, src).subrange(off, off + src.len()) == src,
        forall|i: int|
            0 <= i < d.len() && !(off <= i < off + src.len()) ==> #[trigger] splice(d, off, src)[i]
                == d[i],
{
    assert(splice(d, off, src).subrange(off, off + src.len()) =~= src);
}

/// Every successful update keeps the data a fee config of the same length, with the
/// same authority.
#[verifier::spinoff_prover]
pub proof fn lemma_update_keeps_config(data: Seq<u8>, signer: Seq<u8>, new_recipient: Seq<u8>, current_slot: u64)
    requires
        new_recipient.len() == 32,
    ensures
        updated_fee_config(data, signer, new_recipient, current_slot) matches Ok(d) ==> {
            &&& is_fee_config(d)
            &&& d.len() == data.len()
            &&& fee_authority(d) == fee_authority(data)
            &&& fee_authority(d) == signer
        },
{
    vstd::bytes::lemma_auto_spec_u64_to_from_le_bytes();
    if let Ok(d) = updated_fee_config(data, signer, new_recipient, current_slot) {
        if pending_valid_at(data) == 0 {
            let d1 = splice(data, 65, new_recipient);
            lemma_splice_parts(data, 65, new_recipient);
            lemma_splice_parts(d1, 97, vstd::bytes::spec_u64_to_le_bytes((current_slot + TIMELOCK_SLOTS) as u64));
        } else {
            let d1 = splice(data, 33, pending_recipient(data));
            lemma_splice_parts(data, 33, pending_recipient(data));
            let d2 = splice(d1, 65, zero_pubkey());
            lemma_splice_parts(d1, 65, zero_pubkey());
            lemma_splice_parts(d2, 97, vstd::bytes::spec_u64_to_le_bytes(0));
        }
        assert(fee_authority(d) =~= fee_authority(data));
    }
}

/// The timelock: a recipient staged at slot `s1` becomes the fee recipient through an
/// update by the authority at any slot from `s1 + TIMELOCK_SLOTS` on; the staging
/// update leaves the current recipient in place, and the applying update clears the
/// staging. What the applying update is given as new recipient plays no part.
#[verifier::spinoff_prover]
pub proof fn lemma_stage_then_apply(
    data: Seq<u8>,
    authority: Seq<u8>,
    staged: Seq<u8>,
    other: Seq<u8>,
    s1: u64,
    s2: u64,
)
    requires
        is_fee_config(data),
        fee_authority(data) == authority,
        pending_valid_at(data) == 0,
        staged.len() == 32,
        other.len() == 32,
        s1 + TIMELOCK_SLOTS <= u64::MAX,
        s2 >= s1 + TIMELOCK_SLOTS,
    ensures
        updated_fee_config(data, authority, staged, s1) matches Ok(d1) && {
            &&& fee_recipient(d1) == fee_recipient(data)
            &&& pending_recipient(d1) == staged
            &&& pending_valid_at(d1) == s1 + TIMELOCK_SLOTS
            &&& updated_fee_config(d1, authority, other, s2) matches Ok(d2) && {
                &&& fee_recipient(d2) == staged
                &&& pending_recipient(d2) == zero_pubkey()
                &&& pending_valid_at(d2) == 0
                &&& fee_authority(d2) == authority
            }
        },
{
    vstd::bytes::lemma_auto_spec_u64_to_from_le_bytes();
    let t = (s1 + TIMELOCK_SLOTS) as u64;
    let tb = vstd::bytes::spec_u64_to_le_bytes(t);
    let a = splice(data, 65, staged);
    lemma_splice_parts(data, 65, staged);
    let d1 = splice(a, 97, tb);
    lemma_splice_parts(a, 97, tb);
    assert(updated_fee_config(data, authority, staged, s1) == Ok::<Seq<u8>, ProgramError>(d1));
    assert(fee_recipient(d1) =~= fee_recipient(data));
    assert(pending_recipient(d1) =~= staged);
    assert(d1.subrange(97, 105) =~= tb);
    assert(fee_authority(d1) =~= authority);
    let b = splice(d1, 33, pending_recipient(d1));
    lemma_splice_parts(d1, 33, pending_recipient(d1));
    let c = splice(b, 65, zero_pubkey());
    lemma_splice_parts(b, 65, zero_pubkey());
    let zb = vstd::bytes::spec_u64_to_le_bytes(0);
    let d2 = splice(c, 97, zb);
    lemma_splice_parts(c, 97, zb);
    assert(updated_fee_config(d1, authority, other, s2) == Ok::<Seq<u8>, ProgramError>(d2));
    assert(fee_recipient(d2) =~= staged);
    assert(pending_recipient(d2) =~= zero_pubkey());
    assert(d2.subrange(97, 105) =~= zb);
    assert(fee_authority(d2) =~= authority);
}

/// Before the timelock elapses, an update by the authority is refused with
/// `TIMELOCK_NOT_ELAPSED` and changes nothing.
#[verifier::spinoff_prover]
pub proof fn lemma_timelock_refuses_early(
    data: Seq<u8>,
    authority: Seq<u8>,
    staged: Seq<u8>,
    other: Seq<u8>,
    s1: u64,
    s2: u64,
)
    requires
        is_fee_config(data),
        fee_authority(data) == authority,
        pending_valid_at(data) == 0,
        staged.len() == 32,
        other.len() == 32,
        s1 + TIMELOCK_SLOTS <= u64::MAX,
        s2 < s1 + TIMELOCK_SLOTS,
    ensures
        updated_fee_config(data, authority, staged, s1) matches Ok(d1)
            && updated_fee_config(d1, authority, other, s2) == Err::<Seq<u8>, ProgramError>(
            ProgramError::Custom(TIMELOCK_NOT_ELAPSED),
        ),
{
    vstd::bytes::lemma_auto_spec_u64_to_from_le_bytes();
    let t = (s1 + TIMELOCK_SLOTS) as u64;
    let tb = vstd::bytes::spec_u64_to_le_bytes(t);
    let a = splice(data, 65, staged);
    lemma_splice_parts(data, 65, staged);
    let d1 = splice(a, 97, tb);
    lemma_splice_parts(a, 97, tb);
    assert(d1.subrange(97, 105) =~= tb);
    assert(fee_authority(d1) =~= authority);
}

} // verus!
