//! Execute: runs a batch of compact instructions on behalf of the wallet, signed by
//! its vault PDA. The decisions of the instruction, in the order it takes them:
//!
//! 1. `check_execute_accounts`: the accounts and the fee config;
//! 2. `auth_route`: how the signer authenticates (authority or session);
//! 3. for a secp256r1 authority, `referenced_account_keys` and `secp256r1_signed_payload`
//!    give what the signature must cover, and `execute_challenge_preimage` the bytes
//!    whose hash the WebAuthn challenge must be;
//! 4. the vault is the wallet's PDA (`derive_vault`);
//! 5. `validate_session`: for a session, its wallet, expiry, revocation and signer;
//! 6. the fee recipient must be writable; `fee_transfer`: the base fee from the vault to
//!    the fee recipient;
//! 7. `inner_instructions`: the instructions to invoke, signed with `vault_signer_seeds`;
//! 8. `settle_spending`: a V3 session's spent amount after the inner instructions.
//!
//! `check_execute` takes steps 1 and 2 (given the outcomes of the outside work between
//! them: parsing the compact instructions, authenticating); `execute_with_vault` takes
//! steps 4 to 6; `process` and `process_with_vault_address` take both in that order.
//! `authenticate_and_process` authenticates a secp256r1 authority itself (on the
//! instruction data after the compact instructions) and hands the outcome to `process`.
//!
//! Accounts: 0. `[signer]` payer; 1. `[]` wallet PDA; 2. `[signer, writable]` authority
//! or session PDA; 3. `[writable]` vault PDA; 4. `[]` fee config PDA; 5. `[writable]`
//! fee recipient; 6. `[]` system program; 7.. inner accounts.

use vstd::prelude::*;
use vstd::string::StringSliceAdditionalSpecFns;

use crate::account::AccountView;
use crate::bytes::{extend_bytes, splice};
use crate::error::{AuthError, ProgramError};
use crate::pubkey::{found_program_address, pubkey_eq, try_find_program_address, Pubkey};
use crate::state::authority::{
    AuthorityHeader, AUTHORITY_TYPE_ED25519, AUTHORITY_TYPE_SECP256R1, DISCRIMINATOR_AUTHORITY,
    DISCRIMINATOR_SESSION, DISCRIMINATOR_WALLET,
};
use crate::state::fee::{fee_recipient, offsets, FEE_CONFIG_DISCRIMINATOR};
use crate::state::session::{
    saturating_add, saturating_sub, session_from_bytes, SessionAccount, SPENT_AMOUNT_OFFSET,
};
use crate::secp256r1::{
    reaches_pubkey, secp256r1_counter_outcome, secp256r1_outcome, Secp256r1Authenticator,
    Secp256r1Context, Secp256r1Verified, COMPRESSED_PUBKEY_LEN, CREDENTIAL_HASH_LEN,
};
use crate::BASE_FEE_LAMPORTS;

verus! {

/// Number of fixed accounts before the inner instructions' accounts.
pub const INNER_ACCOUNTS_START: usize = 7;

/// The address of the System Program (`11111111111111111111111111111111`): all zeros.
pub open spec fn system_program_id() -> Seq<u8> {
    crate::pubkey::zero_pubkey()
}

/// The outcome of the account checks of Execute: the discriminator of the authority
/// (or session) account, or the error.
pub open spec fn execute_accounts_outcome(program_id: Seq<u8>, accounts: Seq<AccountView>) -> Result<u8, ProgramError> {
    if accounts.len() < INNER_ACCOUNTS_START {
        Err(ProgramError::NotEnoughAccountKeys)
    } else {
        let wallet = accounts[1];
        let authority = accounts[2];
        let fee_config = accounts[4];
        let fee_recipient_account = accounts[5];
        let system_program = accounts[6];
        if fee_config.owner@ != program_id {
            Err(ProgramError::IllegalOwner)
        } else if fee_config.data@.len() < offsets::RECIPIENT + 32 {
            Err(ProgramError::InvalidAccountData)
        } else if fee_config.data@[offsets::DISCRIMINATOR as int] != FEE_CONFIG_DISCRIMINATOR {
            Err(ProgramError::InvalidAccountData)
        } else if fee_recipient_account.key@ != fee_recipient(fee_config.data@) {
            Err(ProgramError::InvalidAccountData)
        } else if system_program.key@ != system_program_id() {
            Err(ProgramError::IncorrectProgramId)
        } else if wallet.owner@ != program_id || authority.owner@ != program_id {
            Err(ProgramError::IllegalOwner)
        } else if wallet.data@.len() == 0 || wallet.data@[0] != DISCRIMINATOR_WALLET {
            Err(ProgramError::InvalidAccountData)
        } else if !authority.is_writable {
            Err(ProgramError::InvalidAccountData)
        } else if authority.data@.len() == 0 {
            Err(ProgramError::InvalidAccountData)
        } else {
            Ok(authority.data@[0])
        }
    }
}

/// Checks the accounts of Execute: the fee config (owned by the program, holding the
/// fee recipient that is passed), the System Program, the wallet and the authority.
/// Returns the discriminator of the authority (or session) account.
pub fn check_execute_accounts(program_id: &Pubkey, accounts: &[AccountView]) -> (r: Result<u8, ProgramError>)
    ensures
        r == execute_accounts_outcome(program_id@, accounts@),
{
    if accounts.len() < INNER_ACCOUNTS_START {
        return Err(ProgramError::NotEnoughAccountKeys);
    }
    let wallet = &accounts[1];
    let authority = &accounts[2];
    let fee_config = &accounts[4];
    let fee_recipient_account = &accounts[5];
    let system_program = &accounts[6];
    // Verify FeeConfig PDA ownership and read the recipient.
    if !pubkey_eq(&fee_config.owner, program_id) {
        return Err(ProgramError::IllegalOwner);
    }
    if fee_config.data.len() < offsets::RECIPIENT + 32 {
        return Err(ProgramError::InvalidAccountData);
    }
    if fee_config.data[offsets::DISCRIMINATOR] != FEE_CONFIG_DISCRIMINATOR {
        return Err(ProgramError::InvalidAccountData);
    }
    let stored_recipient = crate::bytes::read_array32(fee_config.data.as_slice(), offsets::RECIPIENT);
    if !pubkey_eq(&fee_recipient_account.key, &stored_recipient) {
        return Err(ProgramError::InvalidAccountData);
    }
    let system_id = crate::pubkey::zero_key();
    if !pubkey_eq(&system_program.key, &system_id) {
        return Err(ProgramError::IncorrectProgramId);
    }
    if !pubkey_eq(&wallet.owner, program_id) || !pubkey_eq(&authority.owner, program_id) {
        return Err(ProgramError::IllegalOwner);
    }
    if wallet.data.len() == 0 || wallet.data[0] != DISCRIMINATOR_WALLET {
        return Err(ProgramError::InvalidAccountData);
    }
    if !authority.is_writable {
        return Err(ProgramError::InvalidAccountData);
    }
    if authority.data.len() == 0 {
        return Err(ProgramError::InvalidAccountData);
    }
    Ok(authority.data[0])
}

/// How the signer of an Execute authenticates.
#[derive(Clone, Copy, Debug, PartialEq, Eq, Structural)]
pub enum AuthRoute {
    /// An Ed25519 authority signs the transaction.
    Ed25519,
    /// A secp256r1 (WebAuthn) authority: the payload follows the compact instructions.
    Secp256r1,
    /// A session key signs; the session is checked by `validate_session`.
    Session,
}

/// The route of authentication for the authority (or session) account, or the error.
pub open spec fn auth_route_outcome(
    discriminator: u8,
    authority_data_len: int,
    header_size: int,
    header: AuthorityHeader,
    wallet_key: Seq<u8>,
) -> Result<AuthRoute, ProgramError> {
    if discriminator == DISCRIMINATOR_AUTHORITY {
        if authority_data_len < header_size {
            Err(ProgramError::InvalidAccountData)
        } else if header.discriminator != DISCRIMINATOR_AUTHORITY {
            Err(ProgramError::InvalidAccountData)
        } else if header.wallet@ != wallet_key {
            Err(ProgramError::InvalidAccountData)
        } else if header.authority_type == AUTHORITY_TYPE_ED25519 {
            Ok(AuthRoute::Ed25519)
        } else if header.authority_type == AUTHORITY_TYPE_SECP256R1 {
            Ok(AuthRoute::Secp256r1)
        } else {
            Err(ProgramError::Auth(AuthError::InvalidAuthenticationKind))
        }
    } else if discriminator == DISCRIMINATOR_SESSION {
        Ok(AuthRoute::Session)
    } else {
        Err(ProgramError::InvalidAccountData)
    }
}

/// Decides how the signer authenticates: an authority account of this wallet with a
/// known authority type, or a session account. `header` is read from the authority
/// data when it is long enough (`header_size` bytes).
pub fn auth_route(
    discriminator: u8,
    authority_data_len: usize,
    header_size: usize,
    header: &AuthorityHeader,
    wallet_key: &Pubkey,
) -> (r: Result<AuthRoute, ProgramError>)
    ensures
        r == auth_route_outcome(discriminator, authority_data_len as int, header_size as int, *header, wallet_key@),
{
    if discriminator == DISCRIMINATOR_AUTHORITY {
        if authority_data_len < header_size {
            return Err(ProgramError::InvalidAccountData);
        }
        if header.discriminator != DISCRIMINATOR_AUTHORITY {
            return Err(ProgramError::InvalidAccountData);
        }
        if !pubkey_eq(&header.wallet, wallet_key) {
            return Err(ProgramError::InvalidAccountData);
        }
        if header.authority_type == AUTHORITY_TYPE_ED25519 {
            Ok(AuthRoute::Ed25519)
        } else if header.authority_type == AUTHORITY_TYPE_SECP256R1 {
            Ok(AuthRoute::Secp256r1)
        } else {
            Err(ProgramError::Auth(AuthError::InvalidAuthenticationKind))
        }
    } else if discriminator == DISCRIMINATOR_SESSION {
        Ok(AuthRoute::Session)
    } else {
        Err(ProgramError::InvalidAccountData)
    }
}

/// A compact instruction: accounts are referenced by their index in the
/// instruction's account list.
pub struct CompactInstruction {
    pub program_id_index: u8,
    pub accounts: Vec<u8>,
    pub data: Vec<u8>,
}

/// The keys of the accounts at the indices `idxs`, concatenated.
pub open spec fn keys_at(accounts: Seq<AccountView>, idxs: Seq<u8>) -> Seq<u8>
    decreases idxs.len(),
{
    if idxs.len() == 0 {
        Seq::<u8>::empty()
    } else {
        keys_at(accounts, idxs.drop_last()) + accounts[idxs.last() as int].key@
    }
}

/// Every index of the instruction is within the accounts.
pub open spec fn indices_in_range(accounts: Seq<AccountView>, ix: CompactInstruction) -> bool {
    &&& ix.program_id_index < accounts.len()
    &&& forall|j: int| 0 <= j < ix.accounts@.len() ==> #[trigger] ix.accounts@[j] < accounts.len()
}

/// The keys that the instructions reference, in order of reference: for each
/// instruction its program, then its accounts.
pub open spec fn referenced_keys(accounts: Seq<AccountView>, ixs: Seq<CompactInstruction>) -> Seq<u8>
    decreases ixs.len(),
{
    if ixs.len() == 0 {
        Seq::<u8>::empty()
    } else {
        let ix = ixs.last();
        referenced_keys(accounts, ixs.drop_last()) + accounts[ix.program_id_index as int].key@
            + keys_at(accounts, ix.accounts@)
    }
}

/// Collects the keys of all accounts referenced by the compact instructions (their
/// programs and accounts, in order of reference): the bytes whose SHA-256 binds a
/// secp256r1 signature to the exact accounts, so that they cannot be reordered.
/// `InvalidInstructionData` when an index is out of range.
#[verifier::spinoff_prover]
pub fn referenced_account_keys(accounts: &[AccountView], ixs: &[CompactInstruction]) -> (r: Result<
    Vec<u8>,
    ProgramError,
>)
    ensures
        match r {
            Ok(v) => (forall|i: int| 0 <= i < ixs@.len() ==> indices_in_range(accounts@, #[trigger] ixs@[i]))
                && v@ == referenced_keys(accounts@, ixs@),
            Err(e) => e == ProgramError::InvalidInstructionData && exists|i: int|
                0 <= i < ixs@.len() && !indices_in_range(accounts@, #[trigger] ixs@[i]),
        },
{
    let mut out: Vec<u8> = Vec::new();
    let n = ixs.len();
    let mut i: usize = 0;
    while i < n
        invariant
            n == ixs@.len(),
            i <= n,
            forall|k: int| 0 <= k < i ==> indices_in_range(accounts@, #[trigger] ixs@[k]),
            out@ == referenced_keys(accounts@, ixs@.take(i as int)),
        decreases n - i,
    {
        let ix = &ixs[i];
        let program_idx = ix.program_id_index as usize;
        if program_idx >= accounts.len() {
            assert(!indices_in_range(accounts@, ixs@[i as int]));
            return Err(ProgramError::InvalidInstructionData);
        }
        let ghost before = out@;
        extend_bytes(&mut out, vstd::array::array_as_slice(&accounts[program_idx].key));
        let m = ix.accounts.len();
        let mut j: usize = 0;
        while j < m
            invariant
                n == ixs@.len(),
                i < n,
                ix == ixs@[i as int],
                m == ix.accounts@.len(),
                program_idx < accounts@.len(),
                program_idx == ix.program_id_index,
                j <= m,
                forall|k: int| 0 <= k < j ==> #[trigger] ix.accounts@[k] < accounts@.len(),
                out@ == before + accounts@[program_idx as int].key@ + keys_at(accounts@, ix.accounts@.take(j as int)),
            decreases m - j,
        {
            let idx = ix.accounts[j] as usize;
            if idx >= accounts.len() {
                assert(!indices_in_range(accounts@, ixs@[i as int]));
                return Err(ProgramError::InvalidInstructionData);
            }
            extend_bytes(&mut out, vstd::array::array_as_slice(&accounts[idx].key));
            assert(ix.accounts@.take(j + 1).drop_last() =~= ix.accounts@.take(j as int));
            j = j + 1;
        }
        assert(ix.accounts@.take(m as int) =~= ix.accounts@);
        assert(ixs@.take(i + 1).drop_last() =~= ixs@.take(i as int));
        i = i + 1;
    }
    assert(ixs@.take(n as int) =~= ixs@);
    Ok(out)
}

/// The payload that a secp256r1 authority signs for Execute: the compact instructions'
/// bytes (the first `compact_len` bytes of the instruction data) followed by the hash
/// of the referenced account keys.
pub fn secp256r1_signed_payload(instruction_data: &[u8], compact_len: usize, accounts_hash: &Pubkey) -> (r: Vec<u8>)
    requires
        compact_len <= instruction_data@.len(),
    ensures
        r@ == instruction_data@.take(compact_len as int) + accounts_hash@,
{
    let mut r: Vec<u8> = Vec::new();
    extend_bytes(&mut r, vstd::slice::slice_subrange(instruction_data, 0, compact_len));
    extend_bytes(&mut r, vstd::array::array_as_slice(accounts_hash));
    r
}

/// The discriminator of Execute, which separates its signatures from those of the
/// program's other instructions.
pub const EXECUTE_DISCRIMINATOR: u8 = 4;

/// The bytes whose SHA-256 a secp256r1 authority's clientDataJSON challenge must be for
/// Execute: the discriminator, the auth prefix of the auth payload (the instruction data
/// after the `compact_len` bytes of compact instructions), the signed payload (those
/// compact instructions followed by `accounts_hash`), the slot and the payer. `None`
/// when the auth payload is too short for its prefix or there is no payer.
pub fn execute_challenge_preimage(
    accounts: &[AccountView],
    instruction_data: &[u8],
    compact_len: usize,
    accounts_hash: &Pubkey,
) -> (r: Option<Vec<u8>>)
    requires
        compact_len <= instruction_data@.len(),
    ensures
        ({
            let p = instruction_data@.skip(compact_len as int);
            match r {
                Some(v) => crate::secp256r1::has_auth_prefix(p) && accounts@.len() > 0 && v@
                    == crate::secp256r1::challenge_preimage_spec(
                    seq![EXECUTE_DISCRIMINATOR],
                    p.take(crate::secp256r1::json_len_offset(p)),
                    instruction_data@.take(compact_len as int) + accounts_hash@,
                    crate::bytes::u64_le_at(p, 0),
                    accounts@[0].key@,
                ),
                None => !crate::secp256r1::has_auth_prefix(p) || accounts@.len() == 0,
            }
        }),
{
    let auth_payload = vstd::slice::slice_subrange(instruction_data, compact_len, instruction_data.len());
    assert(auth_payload@ =~= instruction_data@.skip(compact_len as int));
    let signed_payload = secp256r1_signed_payload(instruction_data, compact_len, accounts_hash);
    let discriminator: [u8; 1] = [EXECUTE_DISCRIMINATOR];
    assert(vstd::array::array_as_slice(&discriminator)@ =~= seq![EXECUTE_DISCRIMINATOR]);
    crate::secp256r1::expected_challenge_preimage(
        accounts,
        auth_payload,
        signed_payload.as_slice(),
        vstd::array::array_as_slice(&discriminator),
    )
}

/// The challenge of an Execute covers the hash of the referenced accounts: two
/// challenge preimages built from the same compact instructions and auth prefix are
/// equal only if their accounts hashes are, so a signature made for one order of the
/// accounts does not cover another whose hash differs.
pub proof fn lemma_challenge_binds_accounts_hash(
    compact: Seq<u8>,
    auth_prefix: Seq<u8>,
    h1: Seq<u8>,
    h2: Seq<u8>,
    slot: u64,
    payer: Seq<u8>,
)
    requires
        h1.len() == 32,
        h2.len() == 32,
    ensures
        crate::secp256r1::challenge_preimage_spec(seq![EXECUTE_DISCRIMINATOR], auth_prefix, compact + h1, slot, payer)
            == crate::secp256r1::challenge_preimage_spec(seq![EXECUTE_DISCRIMINATOR], auth_prefix, compact + h2, slot, payer)
            ==> h1 == h2,
{
    let p1 = crate::secp256r1::challenge_preimage_spec(seq![EXECUTE_DISCRIMINATOR], auth_prefix, compact + h1, slot, payer);
    let p2 = crate::secp256r1::challenge_preimage_spec(seq![EXECUTE_DISCRIMINATOR], auth_prefix, compact + h2, slot, payer);
    let start: int = 1 + auth_prefix.len() as int + compact.len() as int;
    if p1 == p2 {
        assert(p1.subrange(start, start + 32) =~= h1);
        assert(p2.subrange(start, start + 32) =~= h2);
    }
}

/// Vault PDA seed: `vault`.
pub open spec fn vault_seed() -> Seq<u8> {
    "vault".spec_bytes()
}

/// Derives the wallet's vault PDA `["vault", wallet]`. `None` where the runtime finds no
/// bump seed (and on any target other than the Solana runtime).
pub fn derive_vault(program_id: &Pubkey, wallet_key: &Pubkey) -> (r: Option<(Pubkey, u8)>)
    ensures
        r matches Some((address, bump)) ==> (address@, bump) == found_program_address(
            seq![vault_seed(), wallet_key@],
            program_id@,
        ),
{
    let seed: &[u8] = "vault".as_bytes();
    let wallet: &[u8] = vstd::array::array_as_slice(wallet_key);
    let mut seeds: Vec<&[u8]> = Vec::new();
    seeds.push(seed);
    seeds.push(wallet);
    let seeds_slice = seeds.as_slice();
    proof {
        assert(seed.deep_view() =~= seed@);
        assert(wallet.deep_view() =~= wallet@);
        assert(seeds_slice@[0] == seed);
        assert(seeds_slice@[1] == wallet);
        assert(seeds_slice.deep_view() =~= seq![vault_seed(), wallet_key@]);
    }
    try_find_program_address(seeds_slice, program_id)
}

/// Some signer among the accounts has the key `key`.
pub open spec fn has_signer(accounts: Seq<AccountView>, key: Seq<u8>) -> bool {
    exists|i: int| 0 <= i < accounts.len() && #[trigger] accounts[i].is_signer && accounts[i].key@ == key
}

/// The outcome of the session checks: the session's mint when it is a V3 session
/// (spending limits apply), or the error.
pub open spec fn session_outcome(
    session_data: Seq<u8>,
    wallet_key: Seq<u8>,
    current_slot: u64,
    accounts: Seq<AccountView>,
) -> Result<Option<Seq<u8>>, ProgramError> {
    if session_data.len() < SessionAccount::LEGACY_SIZE {
        Err(ProgramError::InvalidAccountData)
    } else {
        let session = session_from_bytes(session_data);
        let is_v3 = session_data.len() >= SessionAccount::SIZE;
        if session.wallet@ != wallet_key {
            Err(ProgramError::InvalidAccountData)
        } else if current_slot > session.expires_at {
            Err(ProgramError::Auth(AuthError::SessionExpired))
        } else if is_v3 && session.spec_is_revoked() {
            Err(ProgramError::Auth(AuthError::SessionExpired))
        } else if !has_signer(accounts, session.session_key@) {
            Err(ProgramError::MissingRequiredSignature)
        } else if is_v3 {
            Ok(Some(session.mint@))
        } else {
            Ok(None)
        }
    }
}

/// Validates a session used to authenticate Execute: it belongs to the wallet, has not
/// expired at `current_slot`, is not revoked (V3), and its session key signed the
/// transaction. Returns the mint of a V3 session, whose spending limit applies.
pub fn validate_session(
    session_data: &[u8],
    wallet_key: &Pubkey,
    current_slot: u64,
    accounts: &[AccountView],
) -> (r: Result<Option<Pubkey>, ProgramError>)
    ensures
        match (r, session_outcome(session_data@, wallet_key@, current_slot, accounts@)) {
            (Ok(Some(m)), Ok(Some(n))) => m@ == n,
            (Ok(None), Ok(None)) => true,
            (Err(e), Err(f)) => e == f,
            _ => false,
        },
{
    let is_v3 = session_data.len() >= SessionAccount::SIZE;
    if session_data.len() < SessionAccount::LEGACY_SIZE {
        return Err(ProgramError::InvalidAccountData);
    }
    let session = SessionAccount::from_bytes(session_data);
    if !pubkey_eq(&session.wallet, wallet_key) {
        return Err(ProgramError::InvalidAccountData);
    }
    if current_slot > session.expires_at {
        return Err(ProgramError::Auth(AuthError::SessionExpired));
    }
    if is_v3 && session.is_revoked() {
        return Err(ProgramError::Auth(AuthError::SessionExpired));
    }
    // Verify a signer matches the session key.
    let mut signer_matched = false;
    let n = accounts.len();
    let mut i: usize = 0;
    while i < n
        invariant
            n == accounts@.len(),
            i <= n,
            signer_matched ==> has_signer(accounts@, session.session_key@),
            !signer_matched ==> forall|k: int|
                0 <= k < i ==> !(#[trigger] accounts@[k].is_signer && accounts@[k].key@ == session.session_key@),
        decreases n - i,
    {
        if !signer_matched && accounts[i].is_signer && pubkey_eq(&accounts[i].key, &session.session_key) {
            signer_matched = true;
            assert(accounts@[i as int].is_signer && accounts@[i as int].key@ == session.session_key@);
        }
        i = i + 1;
    }
    if !signer_matched {
        return Err(ProgramError::MissingRequiredSignature);
    }
    if is_v3 {
        Ok(Some(session.mint))
    } else {
        Ok(None)
    }
}

/// The System Program transfer instruction data for `lamports`:
/// `[2, 0, 0, 0]` (transfer) followed by the amount, little-endian.
pub open spec fn transfer_data(lamports: u64) -> Seq<u8> {
    seq![2u8, 0, 0, 0] + vstd::bytes::spec_u64_to_le_bytes(lamports)
}

/// An account of an instruction that the program invokes.
#[derive(Clone, Copy, Debug, PartialEq, Eq)]
pub struct CpiAccountMeta {
    pub pubkey: Pubkey,
    pub is_signer: bool,
    pub is_writable: bool,
}

/// An instruction that the program invokes (signed with the vault's seeds).
#[derive(Debug, PartialEq, Eq)]
pub struct CpiInstruction {
    pub program_id: Pubkey,
    pub accounts: Vec<CpiAccountMeta>,
    pub data: Vec<u8>,
}

/// An account meta as plain values: key, signer, writable.
pub open spec fn meta_view(m: CpiAccountMeta) -> (Seq<u8>, bool, bool) {
    (m.pubkey@, m.is_signer, m.is_writable)
}

/// An instruction as plain values: program, account metas, data.
pub open spec fn cpi_view(ix: CpiInstruction) -> (Seq<u8>, Seq<(Seq<u8>, bool, bool)>, Seq<u8>) {
    (ix.program_id@, ix.accounts@.map_values(|m: CpiAccountMeta| meta_view(m)), ix.data@)
}

/// The base fee transfer: the System Program moves `BASE_FEE_LAMPORTS` from the vault
/// (a signer, writable) to the fee recipient (writable).
pub open spec fn fee_transfer_cpi(vault_key: Seq<u8>, recipient_key: Seq<u8>) -> (Seq<u8>, Seq<(Seq<u8>, bool, bool)>, Seq<u8>) {
    (system_program_id(), seq![(vault_key, true, true), (recipient_key, false, true)], transfer_data(BASE_FEE_LAMPORTS))
}

/// The base fee: the System Program transfer of `BASE_FEE_LAMPORTS` from the vault to the
/// fee recipient, or nothing when the vault holds less than the fee.
pub fn fee_transfer(vault: &AccountView, fee_recipient: &AccountView) -> (r: Option<CpiInstruction>)
    ensures
        vault.lamports < BASE_FEE_LAMPORTS ==> r is None,
        vault.lamports >= BASE_FEE_LAMPORTS ==> (r matches Some(ix) && cpi_view(ix) == fee_transfer_cpi(
            vault.key@,
            fee_recipient.key@,
        )),
{
    if vault.lamports < BASE_FEE_LAMPORTS {
        // Not enough for the fee: skip.
        return None;
    }
    let mut data: Vec<u8> = Vec::new();
    data.push(2);
    data.push(0);
    data.push(0);
    data.push(0);
    let amount = vstd::bytes::u64_to_le_bytes(BASE_FEE_LAMPORTS);
    extend_bytes(&mut data, amount.as_slice());
    assert(data@ =~= transfer_data(BASE_FEE_LAMPORTS));
    let mut metas: Vec<CpiAccountMeta> = Vec::new();
    metas.push(CpiAccountMeta { pubkey: vault.key, is_signer: true, is_writable: true });
    metas.push(CpiAccountMeta { pubkey: fee_recipient.key, is_signer: false, is_writable: true });
    let ix = CpiInstruction { program_id: crate::pubkey::zero_key(), accounts: metas, data };
    assert(cpi_view(ix).1 =~= seq![(vault.key@, true, true), (fee_recipient.key@, false, true)]);
    Some(ix)
}

/// The seeds with which the program signs for the vault: `["vault", wallet, [bump]]`.
pub fn vault_signer_seeds(wallet_key: &Pubkey, vault_bump: u8) -> (r: Vec<Vec<u8>>)
    ensures
        r@.len() == 3,
        r@[0]@ == vault_seed(),
        r@[1]@ == wallet_key@,
        r@[2]@ == seq![vault_bump],
{
    let mut seed: Vec<u8> = Vec::new();
    extend_bytes(&mut seed, "vault".as_bytes());
    let mut wallet: Vec<u8> = Vec::new();
    extend_bytes(&mut wallet, vstd::array::array_as_slice(wallet_key));
    let mut bump: Vec<u8> = Vec::new();
    bump.push(vault_bump);
    assert(bump@ =~= seq![vault_bump]);
    let mut r: Vec<Vec<u8>> = Vec::new();
    r.push(seed);
    r.push(wallet);
    r.push(bump);
    r
}

/// Refuses a CPI back into this program (no self-reentrancy).
pub fn check_cpi_program(program_id: &Pubkey, target_program: &Pubkey) -> (r: Result<(), ProgramError>)
    ensures
        r == if target_program@ == program_id@ {
            Err(ProgramError::Auth(AuthError::SelfReentrancyNotAllowed))
        } else {
            Ok(())
        },
{
    if pubkey_eq(target_program, program_id) {
        return Err(ProgramError::Auth(AuthError::SelfReentrancyNotAllowed));
    }
    Ok(())
}

/// An inner instruction's account signs when it signed the transaction or is the vault
/// (which the program signs for with its seeds).
pub fn cpi_signer_flag(account: &AccountView, vault_key: &Pubkey) -> (r: bool)
    ensures
        r == (account.is_signer || account.key@ == vault_key@),
{
    account.is_signer || pubkey_eq(&account.key, vault_key)
}

/// The account metas of an inner instruction whose accounts are at `idxs`: each keeps
/// its writable flag and signs when it signed the transaction or is the vault.
pub open spec fn inner_metas(accounts: Seq<AccountView>, idxs: Seq<u8>, vault_key: Seq<u8>) -> Seq<(Seq<u8>, bool, bool)> {
    Seq::new(
        idxs.len(),
        |j: int|
            {
                let a = accounts[idxs[j] as int];
                (a.key@, a.is_signer || a.key@ == vault_key, a.is_writable)
            },
    )
}

/// The instruction that the program invokes for a compact instruction.
pub open spec fn inner_cpi(accounts: Seq<AccountView>, ix: CompactInstruction, vault_key: Seq<u8>) -> (Seq<u8>, Seq<(Seq<u8>, bool, bool)>, Seq<u8>) {
    (accounts[ix.program_id_index as int].key@, inner_metas(accounts, ix.accounts@, vault_key), ix.data@)
}

/// A compact instruction whose program is this program (a CPI back into it).
pub open spec fn is_reentrant(program_id: Seq<u8>, accounts: Seq<AccountView>, ix: CompactInstruction) -> bool {
    accounts[ix.program_id_index as int].key@ == program_id
}

/// Expands a compact instruction into the instruction that the program invokes, signed
/// by the vault; a CPI back into this program is refused.
pub fn inner_instruction(
    program_id: &Pubkey,
    accounts: &[AccountView],
    ix: &CompactInstruction,
    vault_key: &Pubkey,
) -> (r: Result<CpiInstruction, ProgramError>)
    requires
        indices_in_range(accounts@, *ix),
    ensures
        match r {
            Ok(c) => !is_reentrant(program_id@, accounts@, *ix) && cpi_view(c) == inner_cpi(accounts@, *ix, vault_key@),
            Err(e) => is_reentrant(program_id@, accounts@, *ix) && e == ProgramError::Auth(AuthError::SelfReentrancyNotAllowed),
        },
{
    let mut metas: Vec<CpiAccountMeta> = Vec::new();
    let m = ix.accounts.len();
    let mut j: usize = 0;
    while j < m
        invariant
            m == ix.accounts@.len(),
            j <= m,
            indices_in_range(accounts@, *ix),
            metas@.len() == j,
            forall|k: int| 0 <= k < j ==> meta_view(#[trigger] metas@[k]) == inner_metas(accounts@, ix.accounts@, vault_key@)[k],
        decreases m - j,
    {
        let acc = &accounts[ix.accounts[j] as usize];
        let meta = CpiAccountMeta {
            pubkey: acc.key,
            is_signer: cpi_signer_flag(acc, vault_key),
            is_writable: acc.is_writable,
        };
        metas.push(meta);
        j = j + 1;
    }
    let target = accounts[ix.program_id_index as usize].key;
    // Prevent self-reentrancy.
    match check_cpi_program(program_id, &target) {
        Ok(()) => {},
        Err(e) => return Err(e),
    }
    let c = CpiInstruction { program_id: target, accounts: metas, data: vstd::slice::slice_to_vec(ix.data.as_slice()) };
    assert(cpi_view(c).1 =~= inner_metas(accounts@, ix.accounts@, vault_key@));
    Ok(c)
}

/// The instructions that Execute invokes, in the order of the compact instructions,
/// each signed by the vault (`vault_signer_seeds`); none may call back into this
/// program (`SelfReentrancyNotAllowed`).
pub fn inner_instructions(
    program_id: &Pubkey,
    accounts: &[AccountView],
    ixs: &[CompactInstruction],
    vault_key: &Pubkey,
) -> (r: Result<Vec<CpiInstruction>, ProgramError>)
    requires
        forall|i: int| 0 <= i < ixs@.len() ==> indices_in_range(accounts@, #[trigger] ixs@[i]),
    ensures
        match r {
            Ok(v) => v@.len() == ixs@.len() && forall|i: int|
                0 <= i < ixs@.len() ==> !is_reentrant(program_id@, accounts@, #[trigger] ixs@[i])
                    && cpi_view(v@[i]) == inner_cpi(accounts@, ixs@[i], vault_key@),
            Err(e) => e == ProgramError::Auth(AuthError::SelfReentrancyNotAllowed) && exists|i: int|
                0 <= i < ixs@.len() && is_reentrant(program_id@, accounts@, #[trigger] ixs@[i]),
        },
{
    let mut out: Vec<CpiInstruction> = Vec::new();
    let n = ixs.len();
    let mut i: usize = 0;
    while i < n
        invariant
            n == ixs@.len(),
            i <= n,
            forall|k: int| 0 <= k < ixs@.len() ==> indices_in_range(accounts@, #[trigger] ixs@[k]),
            out@.len() == i,
            forall|k: int|
                0 <= k < i ==> !is_reentrant(program_id@, accounts@, #[trigger] ixs@[k]) && cpi_view(out@[k])
                    == inner_cpi(accounts@, ixs@[k], vault_key@),
        decreases n - i,
    {
        let c = match inner_instruction(program_id, accounts, &ixs[i], vault_key) {
            Ok(c) => c,
            Err(e) => {
                assert(is_reentrant(program_id@, accounts@, ixs@[i as int]));
                return Err(e);
            },
        };
        out.push(c);
        i = i + 1;
    }
    Ok(out)
}

/// The session data after the inner instructions of Execute moved the vault balance
/// from `balance_before` to `balance_after`: only spending counts (deposits are
/// ignored); the spent amount may not exceed the session's limit.
pub open spec fn spending_outcome(session_data: Seq<u8>, balance_before: u64, balance_after: u64) -> Result<Seq<u8>, ProgramError> {
    let spent = saturating_sub(balance_before, balance_after);
    if spent == 0 {
        Ok(session_data)
    } else {
        let session = session_from_bytes(session_data);
        if session.spec_would_exceed_limit(spent) {
            Err(ProgramError::Auth(AuthError::SpendingLimitExceeded))
        } else {
            Ok(
                splice(
                    session_data,
                    SPENT_AMOUNT_OFFSET as int,
                    vstd::bytes::spec_u64_to_le_bytes(saturating_add(session.spent_amount, spent)),
                ),
            )
        }
    }
}

/// Enforces a V3 session's spending limit after the inner instructions: returns the
/// session data with the new spent amount, or `SpendingLimitExceeded`.
pub fn enforce_spending_limit(session_data: &[u8], balance_before: u64, balance_after: u64) -> (r: Result<
    Vec<u8>,
    ProgramError,
>)
    requires
        session_data@.len() >= SessionAccount::SIZE,
    ensures
        crate::processor::update_fee_recipient::same_result(r, spending_outcome(session_data@, balance_before, balance_after)),
{
    let spent = balance_before.saturating_sub(balance_after);
    if spent == 0 {
        return Ok(vstd::slice::slice_to_vec(session_data));
    }
    let session = SessionAccount::from_bytes(session_data);
    if session.would_exceed_limit(spent) {
        return Err(ProgramError::Auth(AuthError::SpendingLimitExceeded));
    }
    let new_spent = session.spent_amount.saturating_add(spent);
    let mut out = vstd::slice::slice_to_vec(session_data);
    let b = vstd::bytes::u64_to_le_bytes(new_spent);
    crate::bytes::copy_into(&mut out, SPENT_AMOUNT_OFFSET, b.as_slice());
    Ok(out)
}


/// After the spending of an Execute is recorded, the session's spent amount is within
/// its limit and grew by what the vault lost (saturating at `u64::MAX`); nothing else of the session changes.
#[verifier::spinoff_prover]
pub proof fn lemma_spending_within_limit(session_data: Seq<u8>, balance_before: u64, balance_after: u64)
    requires
        session_data.len() >= SessionAccount::SIZE,
        balance_after < balance_before,
    ensures
        spending_outcome(session_data, balance_before, balance_after) matches Ok(d) ==> {
            let old_session = session_from_bytes(session_data);
            let new_session = session_from_bytes(d);
            &&& d.len() == session_data.len()
            &&& new_session.spent_amount == saturating_add(
                old_session.spent_amount,
                (balance_before - balance_after) as u64,
            )
            &&& new_session.spent_amount <= new_session.max_amount
            &&& new_session.max_amount == old_session.max_amount
            &&& new_session.expires_at == old_session.expires_at
            &&& new_session.wallet == old_session.wallet
            &&& new_session.session_key == old_session.session_key
            &&& new_session.mint == old_session.mint
            &&& new_session.flags == old_session.flags
        },
{
    vstd::bytes::lemma_auto_spec_u64_to_from_le_bytes();
    if let Ok(d) = spending_outcome(session_data, balance_before, balance_after) {
        let old_session = session_from_bytes(session_data);
        let b = vstd::bytes::spec_u64_to_le_bytes(
            saturating_add(old_session.spent_amount, (balance_before - balance_after) as u64),
        );
        assert(d == splice(session_data, SPENT_AMOUNT_OFFSET as int, b));
        assert(d.subrange(120, 128) =~= b);
        assert(d.subrange(112, 120) =~= session_data.subrange(112, 120));
        assert(d.subrange(72, 80) =~= session_data.subrange(72, 80));
        assert(d.subrange(8, 40) =~= session_data.subrange(8, 40));
        assert(d.subrange(40, 72) =~= session_data.subrange(40, 72));
        assert(d.subrange(80, 112) =~= session_data.subrange(80, 112));
        let new_session = session_from_bytes(d);
        assert(new_session.wallet@ == old_session.wallet@);
        assert(new_session.session_key@ == old_session.session_key@);
        assert(new_session.mint@ == old_session.mint@);
        assert(new_session.wallet =~= old_session.wallet);
        assert(new_session.session_key =~= old_session.session_key);
        assert(new_session.mint =~= old_session.mint);
    }
}


/// Recording spending keeps a session within its limit: from a session whose spent
/// amount is within its limit, every successful recording leaves it within the limit,
/// so any sequence of Executes does.
pub proof fn lemma_spending_keeps_limit(session_data: Seq<u8>, balance_before: u64, balance_after: u64)
    requires
        session_data.len() >= SessionAccount::SIZE,
        session_from_bytes(session_data).spent_amount <= session_from_bytes(session_data).max_amount,
    ensures
        spending_outcome(session_data, balance_before, balance_after) matches Ok(d) ==> session_from_bytes(
            d,
        ).spent_amount <= session_from_bytes(d).max_amount && d.len() == session_data.len(),
{
    if balance_after < balance_before {
        lemma_spending_within_limit(session_data, balance_before, balance_after);
    }
}

/// What Execute does once its checks pass: the authentication route, the vault's bump
/// seed, the mint of a V3 session (whose spending limit applies), the vault balance
/// before the inner instructions (0 when no limit applies), and the base fee transfer.
pub struct ExecutePlan {
    pub route: AuthRoute,
    pub vault_bump: u8,
    pub session_mint: Option<Pubkey>,
    pub balance_before: u64,
    pub fee_transfer: Option<CpiInstruction>,
}

/// The outcome of the checks of Execute that come before the authentication: the
/// accounts, the outcome of parsing the compact instructions and the authentication
/// route. The route, or the error.
pub open spec fn execute_route_outcome(
    program_id: Seq<u8>,
    accounts: Seq<AccountView>,
    compact: Result<(), ProgramError>,
    header: AuthorityHeader,
    header_size: int,
) -> Result<AuthRoute, ProgramError> {
    match execute_accounts_outcome(program_id, accounts) {
        Err(e) => Err(e),
        Ok(discriminator) => match compact {
            Err(e) => Err(e),
            Ok(_) => auth_route_outcome(discriminator, accounts[2].data@.len() as int, header_size, header, accounts[1].key@),
        },
    }
}

/// The outcome of the checks of Execute that come before the vault PDA is derived: the
/// checks of `execute_route_outcome` and, for an authority, the outcome of the
/// authentication. The route, or the error.
pub open spec fn execute_checks_outcome(
    program_id: Seq<u8>,
    accounts: Seq<AccountView>,
    compact: Result<(), ProgramError>,
    header: AuthorityHeader,
    header_size: int,
    authentication: Result<(), ProgramError>,
) -> Result<AuthRoute, ProgramError> {
    match execute_route_outcome(program_id, accounts, compact, header, header_size) {
        Err(e) => Err(e),
        Ok(route) => if route != AuthRoute::Session && authentication is Err {
            Err(authentication->Err_0)
        } else {
            Ok(route)
        },
    }
}

/// The outcome of Execute after its first checks passed with `route`, given the
/// current slot and the vault PDA `vault` (address, bump): the vault check, the session
/// checks and the base fee.
pub open spec fn execute_vault_outcome(
    route: AuthRoute,
    accounts: Seq<AccountView>,
    current_slot: u64,
    vault: (Seq<u8>, u8),
) -> Result<(AuthRoute, u8, Option<Seq<u8>>, u64, Option<(Seq<u8>, Seq<(Seq<u8>, bool, bool)>, Seq<u8>)>), ProgramError> {
    if accounts[3].key@ != vault.0 {
        Err(ProgramError::InvalidSeeds)
    } else {
        let session = if route == AuthRoute::Session {
            session_outcome(accounts[2].data@, accounts[1].key@, current_slot, accounts)
        } else {
            Ok(None)
        };
        match session {
            Err(e) => Err(e),
            Ok(mint) => {
                let balance_before = if mint is Some { accounts[3].lamports } else { 0 };
                if !accounts[5].is_writable {
                    Err(ProgramError::InvalidAccountData)
                } else if accounts[3].lamports < BASE_FEE_LAMPORTS {
                    Ok((route, vault.1, mint, balance_before, None))
                } else {
                    Ok((route, vault.1, mint, balance_before, Some(fee_transfer_cpi(accounts[3].key@, accounts[5].key@))))
                }
            },
        }
    }
}

/// The base fee is mandatory and the same for every way of authenticating: once
/// Execute's checks pass (the fee recipient is then writable), the plan holds the
/// System Program (all-zero address) transfer of 5000 lamports (data `[2, 0, 0, 0]` and
/// the amount, little-endian) from the vault (signer, writable) to the fee recipient
/// (writable) exactly when the vault holds at least `BASE_FEE_LAMPORTS`, whatever the
/// route, a session included.
pub proof fn lemma_base_fee_for_every_route(
    route: AuthRoute,
    other_route: AuthRoute,
    accounts: Seq<AccountView>,
    current_slot: u64,
    vault: (Seq<u8>, u8),
)
    ensures
        execute_vault_outcome(route, accounts, current_slot, vault) matches Ok(t) ==> {
            &&& accounts[5].is_writable
            &&& (t.4 is Some <==> accounts[3].lamports >= 5000)
            &&& t.4 is Some ==> t.4->0 == (
                Seq::new(32, |i: int| 0u8),
                seq![(accounts[3].key@, true, true), (accounts[5].key@, false, true)],
                seq![2u8, 0, 0, 0, 0x88, 0x13, 0, 0, 0, 0, 0, 0],
            )
        },
        (execute_vault_outcome(route, accounts, current_slot, vault) is Ok && execute_vault_outcome(
            other_route,
            accounts,
            current_slot,
            vault,
        ) is Ok) ==> execute_vault_outcome(route, accounts, current_slot, vault)->Ok_0.4 == execute_vault_outcome(
            other_route,
            accounts,
            current_slot,
            vault,
        )->Ok_0.4,
{
    let amount = vstd::bytes::spec_u64_to_le_bytes(5000);
    vstd::bytes::spec_u64_to_le_bytes_to_open(5000);
    assert(5000u64 & 0xffu64 == 0x88u64) by (bit_vector);
    assert((5000u64 >> 8u64) & 0xffu64 == 0x13u64) by (bit_vector);
    assert((5000u64 >> 16u64) & 0xffu64 == 0u64) by (bit_vector);
    assert((5000u64 >> 24u64) & 0xffu64 == 0u64) by (bit_vector);
    assert((5000u64 >> 32u64) & 0xffu64 == 0u64) by (bit_vector);
    assert((5000u64 >> 40u64) & 0xffu64 == 0u64) by (bit_vector);
    assert((5000u64 >> 48u64) & 0xffu64 == 0u64) by (bit_vector);
    assert((5000u64 >> 56u64) & 0xffu64 == 0u64) by (bit_vector);
    assert(transfer_data(BASE_FEE_LAMPORTS) =~= seq![2u8, 0, 0, 0, 0x88, 0x13, 0, 0, 0, 0, 0, 0]);
    assert(system_program_id() =~= Seq::new(32, |i: int| 0u8));
    let fee = if accounts[3].lamports < BASE_FEE_LAMPORTS {
        None
    } else {
        Some(fee_transfer_cpi(accounts[3].key@, accounts[5].key@))
    };
    if let Ok(t) = execute_vault_outcome(route, accounts, current_slot, vault) {
        assert(t.4 == fee);
    }
    if let Ok(u) = execute_vault_outcome(other_route, accounts, current_slot, vault) {
        assert(u.4 == fee);
    }
}

/// The outcome of Execute's checks, given the outcome of parsing the compact
/// instructions, the authority header, the outcome of the authentication that the
/// route asks for, the current slot, and the vault PDA `vault` (address, bump).
pub open spec fn execute_outcome(
    program_id: Seq<u8>,
    accounts: Seq<AccountView>,
    compact: Result<(), ProgramError>,
    header: AuthorityHeader,
    header_size: int,
    authentication: Result<(), ProgramError>,
    current_slot: u64,
    vault: (Seq<u8>, u8),
) -> Result<(AuthRoute, u8, Option<Seq<u8>>, u64, Option<(Seq<u8>, Seq<(Seq<u8>, bool, bool)>, Seq<u8>)>), ProgramError> {
    match execute_checks_outcome(program_id, accounts, compact, header, header_size, authentication) {
        Err(e) => Err(e),
        Ok(route) => execute_vault_outcome(route, accounts, current_slot, vault),
    }
}

/// A plan and a spec outcome that agree.
pub open spec fn same_plan(
    r: Result<ExecutePlan, ProgramError>,
    s: Result<(AuthRoute, u8, Option<Seq<u8>>, u64, Option<(Seq<u8>, Seq<(Seq<u8>, bool, bool)>, Seq<u8>)>), ProgramError>,
) -> bool {
    match (r, s) {
        (Ok(p), Ok((route, bump, mint, before, fee))) => {
            &&& p.route == route
            &&& p.vault_bump == bump
            &&& match (p.session_mint, mint) {
                (Some(a), Some(b)) => a@ == b,
                (None, None) => true,
                _ => false,
            }
            &&& p.balance_before == before
            &&& match (p.fee_transfer, fee) {
                (Some(a), Some(b)) => cpi_view(a) == b,
                (None, None) => true,
                _ => false,
            }
        },
        (Err(e), Err(f)) => e == f,
        _ => false,
    }
}

/// Takes the checks of Execute that come before the authentication: the accounts, the
/// outcome of parsing the compact instructions and the authentication route.
pub fn execute_route(
    program_id: &Pubkey,
    accounts: &[AccountView],
    compact: Result<(), ProgramError>,
    header: &AuthorityHeader,
    header_size: usize,
) -> (r: Result<AuthRoute, ProgramError>)
    ensures
        r == execute_route_outcome(program_id@, accounts@, compact, *header, header_size as int),
        r is Ok ==> accounts@.len() >= INNER_ACCOUNTS_START,
{
    let discriminator = match check_execute_accounts(program_id, accounts) {
        Ok(d) => d,
        Err(e) => return Err(e),
    };
    match compact {
        Ok(()) => {},
        Err(e) => return Err(e),
    }
    auth_route(discriminator, accounts[2].data.len(), header_size, header, &accounts[1].key)
}

/// Takes the checks of Execute that come before the vault PDA is derived: the accounts,
/// the outcome of parsing the compact instructions, the authentication route and, for
/// an authority, the outcome of its authentication. `header` is the authority header
/// (read when the authority data holds `header_size` bytes).
pub fn check_execute(
    program_id: &Pubkey,
    accounts: &[AccountView],
    compact: Result<(), ProgramError>,
    header: &AuthorityHeader,
    header_size: usize,
    authentication: Result<(), ProgramError>,
) -> (r: Result<AuthRoute, ProgramError>)
    ensures
        r == execute_checks_outcome(program_id@, accounts@, compact, *header, header_size as int, authentication),
        r is Ok ==> accounts@.len() >= INNER_ACCOUNTS_START,
{
    let route = match execute_route(program_id, accounts, compact, header, header_size) {
        Ok(route) => route,
        Err(e) => return Err(e),
    };
    match route {
        AuthRoute::Session => {},
        _ => match authentication {
            Ok(()) => {},
            Err(e) => return Err(e),
        },
    }
    Ok(route)
}

/// The rest of Execute once its first checks passed with `route` and the vault PDA
/// (`vault_address`, `vault_bump`) is known: checks the vault (signing with the wrong
/// vault is refused with `InvalidSeeds`), the session at `current_slot`, and plans the
/// base fee.
pub fn execute_with_vault(
    route: AuthRoute,
    accounts: &[AccountView],
    current_slot: u64,
    vault_address: &Pubkey,
    vault_bump: u8,
) -> (r: Result<ExecutePlan, ProgramError>)
    requires
        accounts@.len() >= INNER_ACCOUNTS_START,
    ensures
        same_plan(r, execute_vault_outcome(route, accounts@, current_slot, (vault_address@, vault_bump))),
{
    let wallet = &accounts[1];
    let authority = &accounts[2];
    let vault = &accounts[3];
    let fee_recipient_account = &accounts[5];
    // CRITICAL: sign only with the vault derived from this wallet.
    if !pubkey_eq(&vault.key, vault_address) {
        return Err(ProgramError::InvalidSeeds);
    }
    let session_mint = match route {
        AuthRoute::Session => match validate_session(authority.data.as_slice(), &wallet.key, current_slot, accounts) {
            Ok(mint) => mint,
            Err(e) => return Err(e),
        },
        _ => None,
    };
    let balance_before = match session_mint {
        Some(_) => vault.lamports,
        None => 0,
    };
    // The fee is mandatory: a fee recipient that is not writable is refused.
    if !fee_recipient_account.is_writable {
        return Err(ProgramError::InvalidAccountData);
    }
    let fee = fee_transfer(vault, fee_recipient_account);
    Ok(ExecutePlan { route, vault_bump, session_mint, balance_before, fee_transfer: fee })
}

/// Processes the `Execute` instruction up to its inner instructions, once the vault
/// PDA (`vault_address`, `vault_bump`) is known: `check_execute`, then
/// `execute_with_vault`.
#[verifier::spinoff_prover]
pub fn process_with_vault_address(
    program_id: &Pubkey,
    accounts: &[AccountView],
    compact: Result<(), ProgramError>,
    header: &AuthorityHeader,
    header_size: usize,
    authentication: Result<(), ProgramError>,
    current_slot: u64,
    vault_address: &Pubkey,
    vault_bump: u8,
) -> (r: Result<ExecutePlan, ProgramError>)
    ensures
        same_plan(
            r,
            execute_outcome(
                program_id@,
                accounts@,
                compact,
                *header,
                header_size as int,
                authentication,
                current_slot,
                (vault_address@, vault_bump),
            ),
        ),
{
    let route = match check_execute(program_id, accounts, compact, header, header_size, authentication) {
        Ok(route) => route,
        Err(e) => return Err(e),
    };
    execute_with_vault(route, accounts, current_slot, vault_address, vault_bump)
}

/// Processes the `Execute` instruction up to its inner instructions: `check_execute`,
/// then derives the wallet's vault PDA and applies `execute_with_vault`. Where the PDA
/// cannot be derived, it fails with `InvalidSeeds`.
pub fn process(
    program_id: &Pubkey,
    accounts: &[AccountView],
    compact: Result<(), ProgramError>,
    header: &AuthorityHeader,
    header_size: usize,
    authentication: Result<(), ProgramError>,
    current_slot: u64,
) -> (r: Result<ExecutePlan, ProgramError>)
    ensures
        execute_checks_outcome(program_id@, accounts@, compact, *header, header_size as int, authentication) is Err
            ==> r == Err::<ExecutePlan, ProgramError>(
            execute_checks_outcome(program_id@, accounts@, compact, *header, header_size as int, authentication)->Err_0,
        ),
        execute_checks_outcome(program_id@, accounts@, compact, *header, header_size as int, authentication) is Ok
            ==> (r == Err::<ExecutePlan, ProgramError>(ProgramError::InvalidSeeds) || same_plan(
            r,
            execute_outcome(
                program_id@,
                accounts@,
                compact,
                *header,
                header_size as int,
                authentication,
                current_slot,
                found_program_address(seq![vault_seed(), accounts@[1].key@], program_id@),
            ),
        )),
{
    let route = match check_execute(program_id, accounts, compact, header, header_size, authentication) {
        Ok(route) => route,
        Err(e) => return Err(e),
    };
    match derive_vault(program_id, &accounts[1].key) {
        Some((address, bump)) => execute_with_vault(route, accounts, current_slot, &address, bump),
        None => Err(ProgramError::InvalidSeeds),
    }
}

/// The outcome of a secp256r1 authority's authentication for Execute: `authenticate` on
/// the auth payload that follows the `compact_len` bytes of compact instructions in the
/// instruction data, with the authority account's data and the stored counter.
pub open spec fn execute_secp256r1_authentication(
    accounts: Seq<AccountView>,
    instruction_data: Seq<u8>,
    compact_len: int,
    header: AuthorityHeader,
    header_size: int,
    ctx: Secp256r1Context,
) -> Result<(), ProgramError> {
    match secp256r1_outcome(accounts, accounts[2].data@, header_size, header.counter, instruction_data.skip(compact_len), ctx) {
        Ok(_) => Ok(()),
        Err(e) => Err(e),
    }
}

/// The authentication outcome that Execute uses for `route`: the Ed25519 outcome for an
/// Ed25519 authority, the secp256r1 outcome for a secp256r1 authority, none for a session.
pub open spec fn execute_authentication(
    route: Result<AuthRoute, ProgramError>,
    ed25519: Result<(), ProgramError>,
    secp256r1: Result<(), ProgramError>,
) -> Result<(), ProgramError> {
    match route {
        Ok(AuthRoute::Ed25519) => ed25519,
        Ok(AuthRoute::Secp256r1) => secp256r1,
        _ => Ok(()),
    }
}

/// The plan part of a result of `authenticate_and_process`.
pub open spec fn plan_part(r: Result<(ExecutePlan, Option<Secp256r1Verified>), ProgramError>) -> Result<ExecutePlan, ProgramError> {
    match r {
        Ok((p, _)) => Ok(p),
        Err(e) => Err(e),
    }
}

/// Processes the `Execute` instruction up to its inner instructions, authenticating a
/// secp256r1 authority itself: after the account, compact-instruction and route checks,
/// a secp256r1 authority is authenticated by `Secp256r1Authenticator::authenticate` on
/// the instruction data after the `compact_len` bytes of compact instructions (its
/// counter is stored in `header`), an Ed25519 authority by `ed25519_authentication`;
/// then `process` takes that outcome. For a secp256r1 authority, the result also holds
/// what the secp256r1 precompile instruction must have verified.
///
/// `ctx.expected_challenge` is the SHA-256 of `execute_challenge_preimage`, whose signed
/// payload is the compact instructions followed by the hash of `referenced_account_keys`.
pub fn authenticate_and_process(
    program_id: &Pubkey,
    accounts: &[AccountView],
    instruction_data: &[u8],
    compact: Result<(), ProgramError>,
    compact_len: usize,
    header: &mut AuthorityHeader,
    header_size: usize,
    ed25519_authentication: Result<(), ProgramError>,
    ctx: &Secp256r1Context,
    current_slot: u64,
) -> (r: Result<(ExecutePlan, Option<Secp256r1Verified>), ProgramError>)
    requires
        compact is Ok ==> compact_len <= instruction_data@.len(),
        execute_route_outcome(program_id@, accounts@, compact, *old(header), header_size as int) == Ok::<
            AuthRoute,
            ProgramError,
        >(AuthRoute::Secp256r1) && reaches_pubkey(
            accounts@,
            accounts@[2].data@,
            header_size as int,
            old(header).counter,
            instruction_data@.skip(compact_len as int),
            *ctx,
        ) ==> accounts@[2].data@.len() >= header_size + CREDENTIAL_HASH_LEN + COMPRESSED_PUBKEY_LEN,
    ensures
        ({
            let route = execute_route_outcome(program_id@, accounts@, compact, *old(header), header_size as int);
            let authentication = execute_authentication(
                route,
                ed25519_authentication,
                execute_secp256r1_authentication(
                    accounts@,
                    instruction_data@,
                    compact_len as int,
                    *old(header),
                    header_size as int,
                    *ctx,
                ),
            );
            let checks = execute_checks_outcome(
                program_id@,
                accounts@,
                compact,
                *old(header),
                header_size as int,
                authentication,
            );
            &&& checks is Err ==> r is Err && r->Err_0 == checks->Err_0
            &&& checks is Ok ==> (r == Err::<(ExecutePlan, Option<Secp256r1Verified>), ProgramError>(
                ProgramError::InvalidSeeds,
            ) || same_plan(
                plan_part(r),
                execute_outcome(
                    program_id@,
                    accounts@,
                    compact,
                    *old(header),
                    header_size as int,
                    authentication,
                    current_slot,
                    found_program_address(seq![vault_seed(), accounts@[1].key@], program_id@),
                ),
            ))
            &&& r matches Ok((_, v)) ==> if route == Ok::<AuthRoute, ProgramError>(AuthRoute::Secp256r1) {
                v matches Some(w) && secp256r1_outcome(
                    accounts@,
                    accounts@[2].data@,
                    header_size as int,
                    old(header).counter,
                    instruction_data@.skip(compact_len as int),
                    *ctx,
                ) == Ok::<(u64, Seq<u8>, Seq<u8>), ProgramError>(
                    (w.new_counter, w.expected_pubkey@, w.signed_message@),
                )
            } else {
                v is None
            }
            &&& final(header).counter == if route == Ok::<AuthRoute, ProgramError>(AuthRoute::Secp256r1) {
                match secp256r1_counter_outcome(
                    accounts@,
                    accounts@[2].data@,
                    header_size as int,
                    old(header).counter,
                    instruction_data@.skip(compact_len as int),
                    *ctx,
                ) {
                    Ok(c) => c,
                    Err(_) => old(header).counter,
                }
            } else {
                old(header).counter
            }
            &&& final(header).discriminator == old(header).discriminator
            &&& final(header).authority_type == old(header).authority_type
            &&& final(header).wallet == old(header).wallet
        }),
{
    let h: AuthorityHeader = *header;
    let route = match execute_route(program_id, accounts, compact, &h, header_size) {
        Ok(route) => route,
        Err(e) => return Err(e),
    };
    let mut verified: Option<Secp256r1Verified> = None;
    let authentication = match route {
        AuthRoute::Ed25519 => ed25519_authentication,
        AuthRoute::Secp256r1 => {
            let auth_payload = vstd::slice::slice_subrange(instruction_data, compact_len, instruction_data.len());
            assert(auth_payload@ =~= instruction_data@.skip(compact_len as int));
            match Secp256r1Authenticator.authenticate(
                accounts,
                accounts[2].data.as_slice(),
                header_size,
                header,
                auth_payload,
                ctx,
            ) {
                Ok(v) => {
                    verified = Some(v);
                    Ok(())
                },
                Err(e) => Err(e),
            }
        },
        AuthRoute::Session => Ok(()),
    };
    match process(program_id, accounts, compact, &h, header_size, authentication, current_slot) {
        Ok(plan) => Ok((plan, verified)),
        Err(e) => Err(e),
    }
}

/// The session data to store after the inner instructions of Execute moved the vault
/// balance to `balance_after`: for a V3 session (`plan.session_mint`), the data with
/// the recorded spending (or `SpendingLimitExceeded`); otherwise nothing to store.
pub fn settle_spending(plan: &ExecutePlan, session_data: &[u8], balance_after: u64) -> (r: Result<
    Option<Vec<u8>>,
    ProgramError,
>)
    requires
        plan.session_mint is Some ==> session_data@.len() >= SessionAccount::SIZE,
    ensures
        plan.session_mint is None ==> r matches Ok(None),
        plan.session_mint is Some ==> match (r, spending_outcome(session_data@, plan.balance_before, balance_after)) {
            (Ok(Some(v)), Ok(d)) => v@ == d,
            (Err(e), Err(f)) => e == f,
            _ => false,
        },
{
    match plan.session_mint {
        None => Ok(None),
        Some(_) => match enforce_spending_limit(session_data, plan.balance_before, balance_after) {
            Ok(d) => Ok(Some(d)),
            Err(e) => Err(e),
        },
    }
}

} // verus!
