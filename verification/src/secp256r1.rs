//! Secp256r1 (WebAuthn / passkey) authentication of an authority.
//!
//! Auth payload format:
//!
//! ```text
//! [0..8]   slot: u64 (LE) - for nonce/replay protection
//! [8]      sysvar_ix_index: u8 - index of instructions sysvar in accounts
//! [9]      sysvar_slothashes_index: u8 - index of slothashes sysvar in accounts
//! [10]     rp_id_len: u8 - length of RP ID
//! [11..11+rp_id_len] rp_id: bytes - RP ID for domain verification
//! [11+rp_id_len..13+rp_id_len] client_data_json_len: u16 (LE)
//! [13+rp_id_len..] client_data_json: bytes - actual clientDataJSON from WebAuthn
//! [after json..] authenticator_data: bytes - authenticator data from WebAuthn
//! ```

use vstd::prelude::*;

use crate::account::AccountView;
use crate::bytes::{bytes_eq, extend_bytes, read_u64_le, u64_le_at};
use crate::error::{AuthError, ProgramError};
use crate::pubkey::{pubkey_eq, Pubkey};
use crate::state::authority::AuthorityHeader;
use crate::webauthn::{
    client_data_challenge, field_value, type_get, type_pattern, u32_from_be,
    verify_client_data_json_challenge, verify_client_data_json_type_get, AuthDataParser,
};

verus! {

/// Minimum length of the authenticator data: rpIdHash(32) + flags(1) + counter(4).
pub const AUTHENTICATOR_DATA_MIN_LEN: usize = 37;

/// Bytes of an authority account after its header: the credential id hash (32)
/// and the compressed secp256r1 public key (33).
pub const CREDENTIAL_HASH_LEN: usize = 32;

pub const COMPRESSED_PUBKEY_LEN: usize = 33;

/// The address of the instructions sysvar (`Sysvar1nstructions1111111111111111111111111`).
pub const INSTRUCTIONS_SYSVAR_ID: Pubkey = [
    0x06, 0xa7, 0xd5, 0x17, 0x18, 0x7b, 0xd1, 0x66, 0x35, 0xda, 0xd4, 0x04, 0x55, 0xfd, 0xc2, 0xc0,
    0xc1, 0x24, 0xc6, 0x8f, 0x21, 0x56, 0x75, 0xa5, 0xdb, 0xba, 0xcb, 0x5f, 0x08, 0x00, 0x00, 0x00,
];

/// The address of the secp256r1 signature verification program
/// (`Secp256r1SigVerify1111111111111111111111111`).
pub const SECP256R1_PROGRAM_ID: Pubkey = [
    6, 146, 13, 236, 47, 234, 113, 181, 183, 35, 129, 77, 116, 45, 169, 3, 28, 131, 231, 95, 219,
    121, 93, 86, 142, 117, 71, 128, 32, 0, 0, 0,
];

/// Offset of the clientDataJSON length (the end of the auth prefix).
pub open spec fn json_len_offset(p: Seq<u8>) -> int {
    11 + p[10] as int
}

/// The clientDataJSON length: a little-endian `u16`.
pub open spec fn client_data_json_len(p: Seq<u8>) -> int {
    p[json_len_offset(p)] as int + 256 * p[json_len_offset(p) + 1] as int
}

/// Offset of the clientDataJSON.
pub open spec fn json_offset(p: Seq<u8>) -> int {
    json_len_offset(p) + 2
}

/// Offset of the authenticator data.
pub open spec fn authenticator_data_offset(p: Seq<u8>) -> int {
    json_offset(p) + client_data_json_len(p)
}

/// The payload holds all its fields, and at least 37 bytes of authenticator data.
pub open spec fn is_well_formed_payload(p: Seq<u8>) -> bool {
    &&& p.len() >= 11
    &&& p.len() >= json_len_offset(p) + 2
    &&& p.len() >= authenticator_data_offset(p)
    &&& p.len() - authenticator_data_offset(p) >= AUTHENTICATOR_DATA_MIN_LEN
}

/// The fields of a well-formed auth payload.
pub struct Secp256r1Payload {
    pub slot: u64,
    pub sysvar_ix_index: u8,
    pub sysvar_slothashes_index: u8,
    pub rp_id: Vec<u8>,
    /// Everything before the clientDataJSON length: `[slot][ix_idx][slothash_idx][rp_id_len][rp_id]`.
    pub auth_prefix: Vec<u8>,
    pub client_data_json: Vec<u8>,
    pub authenticator_data: Vec<u8>,
}

/// `v` holds the fields of the well-formed payload `p`.
pub open spec fn is_payload_of(v: Secp256r1Payload, p: Seq<u8>) -> bool {
    &&& v.slot == u64_le_at(p, 0)
    &&& v.sysvar_ix_index == p[8]
    &&& v.sysvar_slothashes_index == p[9]
    &&& v.rp_id@ == p.subrange(11, json_len_offset(p))
    &&& v.auth_prefix@ == p.subrange(0, json_len_offset(p))
    &&& v.client_data_json@ == p.subrange(json_offset(p), authenticator_data_offset(p))
    &&& v.authenticator_data@ == p.skip(authenticator_data_offset(p))
}

/// Splits an auth payload into its fields; `InvalidAuthorityPayload` when it is too
/// short for them.
pub fn parse_auth_payload(auth_payload: &[u8]) -> (r: Result<Secp256r1Payload, ProgramError>)
    ensures
        match r {
            Ok(v) => is_well_formed_payload(auth_payload@) && is_payload_of(v, auth_payload@),
            Err(e) => !is_well_formed_payload(auth_payload@) && e == ProgramError::Auth(
                AuthError::InvalidAuthorityPayload,
            ),
        },
{
    let len = auth_payload.len();
    // Minimum: 8 (slot) + 1 + 1 + 1 (rp_id_len) = 11 bytes header
    if len < 11 {
        return Err(ProgramError::Auth(AuthError::InvalidAuthorityPayload));
    }
    let slot = read_u64_le(auth_payload, 0);
    let sysvar_ix_index = auth_payload[8];
    let sysvar_slothashes_index = auth_payload[9];
    let rp_id_len = auth_payload[10] as usize;
    if len < 11 + rp_id_len + 2 {
        return Err(ProgramError::Auth(AuthError::InvalidAuthorityPayload));
    }
    let rp_id = vstd::slice::slice_subrange(auth_payload, 11, 11 + rp_id_len);
    let json_len_offset = 11 + rp_id_len;
    let client_data_json_len = auth_payload[json_len_offset] as usize + 256 * (
    auth_payload[json_len_offset + 1] as usize);
    let json_offset = json_len_offset + 2;
    if len < json_offset + client_data_json_len {
        return Err(ProgramError::Auth(AuthError::InvalidAuthorityPayload));
    }
    let client_data_json = vstd::slice::slice_subrange(
        auth_payload,
        json_offset,
        json_offset + client_data_json_len,
    );
    let authenticator_data = vstd::slice::slice_subrange(
        auth_payload,
        json_offset + client_data_json_len,
        len,
    );
    if authenticator_data.len() < AUTHENTICATOR_DATA_MIN_LEN {
        return Err(ProgramError::Auth(AuthError::InvalidAuthorityPayload));
    }
    let auth_prefix = vstd::slice::slice_subrange(auth_payload, 0, json_len_offset);
    Ok(
        Secp256r1Payload {
            slot,
            sysvar_ix_index,
            sysvar_slothashes_index,
            rp_id: vstd::slice::slice_to_vec(rp_id),
            auth_prefix: vstd::slice::slice_to_vec(auth_prefix),
            client_data_json: vstd::slice::slice_to_vec(client_data_json),
            authenticator_data: vstd::slice::slice_to_vec(authenticator_data),
        },
    )
}


/// The auth payload laid out from its fields.
pub open spec fn payload_layout(
    slot: u64,
    sysvar_ix_index: u8,
    sysvar_slothashes_index: u8,
    rp_id: Seq<u8>,
    client_data_json: Seq<u8>,
    authenticator_data: Seq<u8>,
) -> Seq<u8> {
    vstd::bytes::spec_u64_to_le_bytes(slot) + seq![sysvar_ix_index, sysvar_slothashes_index, rp_id.len() as u8]
        + rp_id + seq![(client_data_json.len() % 256) as u8, (client_data_json.len() / 256) as u8]
        + client_data_json + authenticator_data
}

/// The payload format: every payload laid out from fields that fit it (an RP ID of at
/// most 255 bytes, a clientDataJSON of at most 65535 bytes, at least 37 bytes of
/// authenticator data) is well formed, and its fields are the ones laid out.
pub proof fn lemma_payload_layout(
    slot: u64,
    sysvar_ix_index: u8,
    sysvar_slothashes_index: u8,
    rp_id: Seq<u8>,
    client_data_json: Seq<u8>,
    authenticator_data: Seq<u8>,
)
    requires
        rp_id.len() <= 255,
        client_data_json.len() <= 65535,
        authenticator_data.len() >= AUTHENTICATOR_DATA_MIN_LEN,
    ensures
        ({
            let p = payload_layout(slot, sysvar_ix_index, sysvar_slothashes_index, rp_id, client_data_json, authenticator_data);
            &&& is_well_formed_payload(p)
            &&& u64_le_at(p, 0) == slot
            &&& p[8] == sysvar_ix_index
            &&& p[9] == sysvar_slothashes_index
            &&& p.subrange(11, json_len_offset(p)) == rp_id
            &&& p.subrange(json_offset(p), authenticator_data_offset(p)) == client_data_json
            &&& p.skip(authenticator_data_offset(p)) == authenticator_data
        }),
{
    vstd::bytes::lemma_auto_spec_u64_to_from_le_bytes();
    let sb = vstd::bytes::spec_u64_to_le_bytes(slot);
    let p = payload_layout(slot, sysvar_ix_index, sysvar_slothashes_index, rp_id, client_data_json, authenticator_data);
    let r = rp_id.len() as int;
    let j = client_data_json.len() as int;
    assert(p.subrange(0, 8) =~= sb);
    assert(p[10] == rp_id.len() as u8);
    assert(json_len_offset(p) == 11 + r);
    assert(p[11 + r] == (j % 256) as u8);
    assert(p[12 + r] == (j / 256) as u8);
    assert(client_data_json_len(p) == j);
    assert(p.subrange(11, 11 + r) =~= rp_id);
    assert(p.subrange(13 + r, 13 + r + j) =~= client_data_json);
    assert(p.skip(13 + r + j) =~= authenticator_data);
}

/// Authenticator implementation for Secp256r1 (WebAuthn).
///
/// It accepts the actual clientDataJSON bytes from the client, parses out the
/// challenge field, and verifies it matches the expected value; this works across
/// browsers since only the challenge (and the type) are checked, not the whole JSON.
pub struct Secp256r1Authenticator;

/// What the runtime supplies to a secp256r1 authentication, as plain values.
pub struct Secp256r1Context {
    /// The outcome of the slot-hash nonce check of the payload's slot against the
    /// slot hashes account.
    pub nonce_check: Result<(), ProgramError>,
    /// SHA-256 of the payload's RP ID.
    pub rp_id_hash: Pubkey,
    /// SHA-256 of `expected_challenge_preimage(..)`.
    pub expected_challenge: Pubkey,
    /// SHA-256 of the payload's clientDataJSON.
    pub client_data_hash: Pubkey,
    /// The index of the executing instruction in the transaction (instructions sysvar).
    pub current_instruction_index: u16,
    /// The program of the instruction before it (read only when the index is not 0).
    pub previous_program_id: Pubkey,
}

/// What is left to check once the authentication's decisions are taken: that the
/// secp256r1 precompile instruction before this one verified `signed_message` under
/// `expected_pubkey`; and the counter that was stored in the authority header.
pub struct Secp256r1Verified {
    pub new_counter: u64,
    pub expected_pubkey: Vec<u8>,
    pub signed_message: Vec<u8>,
}

/// The bytes whose SHA-256 is the expected WebAuthn challenge:
/// `discriminator || auth_prefix || signed_payload || slot (LE) || payer`.
pub open spec fn challenge_preimage_spec(
    discriminator: Seq<u8>,
    auth_prefix: Seq<u8>,
    signed_payload: Seq<u8>,
    slot: u64,
    payer: Seq<u8>,
) -> Seq<u8> {
    discriminator + auth_prefix + signed_payload + vstd::bytes::spec_u64_to_le_bytes(slot) + payer
}

/// Builds the bytes whose SHA-256 is the expected challenge.
pub fn challenge_preimage(
    discriminator: &[u8],
    auth_prefix: &[u8],
    signed_payload: &[u8],
    slot: u64,
    payer: &Pubkey,
) -> (r: Vec<u8>)
    ensures
        r@ == challenge_preimage_spec(discriminator@, auth_prefix@, signed_payload@, slot, payer@),
{
    let mut r: Vec<u8> = Vec::new();
    extend_bytes(&mut r, discriminator);
    extend_bytes(&mut r, auth_prefix);
    extend_bytes(&mut r, signed_payload);
    let slot_bytes = vstd::bytes::u64_to_le_bytes(slot);
    extend_bytes(&mut r, slot_bytes.as_slice());
    extend_bytes(&mut r, vstd::array::array_as_slice(payer));
    r
}

/// The payload is long enough for its auth prefix and clientDataJSON length.
pub open spec fn has_auth_prefix(p: Seq<u8>) -> bool {
    p.len() >= 11 && p.len() >= json_len_offset(p) + 2
}

/// The bytes whose SHA-256 the clientDataJSON's challenge must be, for a payer
/// `accounts[0]`, a payload, the signed payload and the instruction discriminator:
/// `discriminator || auth_prefix || signed_payload || slot (LE) || payer`. `None` when
/// the payload is too short for its prefix or there is no payer.
pub fn expected_challenge_preimage(
    accounts: &[AccountView],
    auth_payload: &[u8],
    signed_payload: &[u8],
    discriminator: &[u8],
) -> (r: Option<Vec<u8>>)
    ensures
        match r {
            Some(v) => has_auth_prefix(auth_payload@) && accounts@.len() > 0 && v@ == challenge_preimage_spec(
                discriminator@,
                auth_payload@.take(json_len_offset(auth_payload@)),
                signed_payload@,
                u64_le_at(auth_payload@, 0),
                accounts@[0].key@,
            ),
            None => !has_auth_prefix(auth_payload@) || accounts@.len() == 0,
        },
{
    let len = auth_payload.len();
    if len < 11 {
        return None;
    }
    let json_len_offset = 11 + auth_payload[10] as usize;
    if len < json_len_offset + 2 || accounts.len() == 0 {
        return None;
    }
    let slot = read_u64_le(auth_payload, 0);
    let auth_prefix = vstd::slice::slice_subrange(auth_payload, 0, json_len_offset);
    assert(auth_prefix@ =~= auth_payload@.take(json_len_offset as int));
    Some(challenge_preimage(discriminator, auth_prefix, signed_payload, slot, &accounts[0].key))
}

/// The replay rule for authenticator signature counters: a counter of 0 (an
/// authenticator without a counter) is accepted, any other must exceed the stored one.
/// The accepted counter becomes the stored one.
pub open spec fn counter_outcome(stored: u64, authenticator_counter: u64) -> Result<u64, ProgramError> {
    if authenticator_counter > 0 && authenticator_counter <= stored {
        Err(ProgramError::Auth(AuthError::SignatureReused))
    } else {
        Ok(authenticator_counter)
    }
}

/// Applies the replay rule for authenticator signature counters.
pub fn check_counter(stored: u64, authenticator_counter: u64) -> (r: Result<u64, ProgramError>)
    ensures
        r == counter_outcome(stored, authenticator_counter),
{
    if authenticator_counter > 0 && authenticator_counter <= stored {
        return Err(ProgramError::Auth(AuthError::SignatureReused));
    }
    Ok(authenticator_counter)
}

/// A signature counter, once accepted and stored, cannot be accepted again: a replayed
/// assertion is refused with `SignatureReused`, and so is any older one.
pub proof fn lemma_counter_replay_refused(stored: u64, counter: u64, later: u64)
    requires
        counter > stored,
        0 < later <= counter,
    ensures
        counter_outcome(stored, counter) == Ok::<u64, ProgramError>(counter),
        counter_outcome(counter, later) == Err::<u64, ProgramError>(
            ProgramError::Auth(AuthError::SignatureReused),
        ),
{
}

/// The replay rule, over every stored counter and every reported counter: an
/// authenticator that reports no counter (0, as synced passkeys do) is always accepted;
/// any other counter is accepted exactly when it exceeds the stored one; an accepted
/// counter is the one reported, and a refused one is refused as a replay.
pub proof fn lemma_counter_rule(stored: u64, counter: u64)
    ensures
        counter_outcome(stored, 0) == Ok::<u64, ProgramError>(0),
        counter_outcome(stored, counter) is Ok <==> (counter == 0 || counter > stored),
        counter_outcome(stored, counter) matches Ok(c) ==> c == counter,
        counter_outcome(stored, counter) matches Err(e) ==> e == ProgramError::Auth(AuthError::SignatureReused),
{
}

/// The signature counter that the authenticator data of the payload `p` reports: its
/// bytes 33..37, big-endian.
pub open spec fn reported_counter(p: Seq<u8>) -> int {
    let ad = p.skip(authenticator_data_offset(p));
    ad[33] as int * 16777216 + ad[34] as int * 65536 + ad[35] as int * 256 + ad[36] as int
}

/// The replay rule within an authentication: an accepted assertion stores the counter
/// that its authenticator data reports, which is 0 or exceeds the stored counter; an
/// assertion is refused as a replay (unless the nonce check itself said so) only when
/// its counter is nonzero and at most the stored one, so an authenticator without a
/// counter is never refused as a replay.
pub proof fn lemma_authentication_replay_rule(
    accounts: Seq<AccountView>,
    auth_data: Seq<u8>,
    header_size: int,
    stored: u64,
    p: Seq<u8>,
    ctx: Secp256r1Context,
)
    ensures
        secp256r1_counter_outcome(accounts, auth_data, header_size, stored, p, ctx) matches Ok(c) ==> c
            == reported_counter(p) && (c == 0 || c > stored),
        secp256r1_counter_outcome(accounts, auth_data, header_size, stored, p, ctx) == Err::<u64, ProgramError>(
            ProgramError::Auth(AuthError::SignatureReused),
        ) && ctx.nonce_check != Err::<(), ProgramError>(ProgramError::Auth(AuthError::SignatureReused)) ==> 0
            < reported_counter(p) <= stored,
        is_well_formed_payload(p) && reported_counter(p) == 0 && ctx.nonce_check != Err::<(), ProgramError>(
            ProgramError::Auth(AuthError::SignatureReused),
        ) ==> secp256r1_counter_outcome(accounts, auth_data, header_size, stored, p, ctx) != Err::<
            u64,
            ProgramError,
        >(ProgramError::Auth(AuthError::SignatureReused)),
{
    if is_well_formed_payload(p) {
        let ad = p.skip(authenticator_data_offset(p));
        let b0 = ad[33] as int;
        let b1 = ad[34] as int;
        let b2 = ad[35] as int;
        let b3 = ad[36] as int;
        let sum = b0 * 0x1000000 + b1 * 0x10000 + b2 * 0x100 + b3;
        assert(0 <= sum < 0x100000000) by (nonlinear_arith)
            requires
                sum == b0 * 0x1000000 + b1 * 0x10000 + b2 * 0x100 + b3,
                0 <= b0 < 256,
                0 <= b1 < 256,
                0 <= b2 < 256,
                0 <= b3 < 256,
        ;
        assert(sum == reported_counter(p));
        assert(u32_from_be(ad[33], ad[34], ad[35], ad[36]) == sum);
    }
}

/// The outcome of a secp256r1 authentication up to the signature counter: the checks
/// of the payload, the nonce, the authority data, the payer, the clientDataJSON, user
/// presence and the replay rule. The counter to store, or the error.
pub open spec fn secp256r1_counter_outcome(
    accounts: Seq<AccountView>,
    auth_data: Seq<u8>,
    header_size: int,
    stored_counter: u64,
    p: Seq<u8>,
    ctx: Secp256r1Context,
) -> Result<u64, ProgramError> {
    if !is_well_formed_payload(p) {
        Err(ProgramError::Auth(AuthError::InvalidAuthorityPayload))
    } else if p[9] >= accounts.len() {
        Err(ProgramError::Auth(AuthError::InvalidAuthorityPayload))
    } else if ctx.nonce_check is Err {
        Err(ctx.nonce_check->Err_0)
    } else if auth_data.len() < header_size {
        Err(ProgramError::Auth(AuthError::InvalidAuthorityPayload))
    } else if !accounts[0].is_signer {
        Err(ProgramError::MissingRequiredSignature)
    } else {
        let json = p.subrange(json_offset(p), authenticator_data_offset(p));
        let ad = p.skip(authenticator_data_offset(p));
        let counter = u32_from_be(ad[33], ad[34], ad[35], ad[36]) as u64;
        if client_data_challenge(json) != Some(ctx.expected_challenge@) {
            Err(ProgramError::Auth(AuthError::InvalidMessageHash))
        } else if field_value(json, type_pattern()) != Some(type_get()) {
            Err(ProgramError::Auth(AuthError::InvalidMessage))
        } else if ad[32] & 0x01u8 == 0 {
            Err(ProgramError::Auth(AuthError::PermissionDenied))
        } else {
            counter_outcome(stored_counter, counter)
        }
    }
}

/// The authentication passed every check up to the RP ID hash, where the public key is
/// read from the authority data.
pub open spec fn reaches_pubkey(
    accounts: Seq<AccountView>,
    auth_data: Seq<u8>,
    header_size: int,
    stored_counter: u64,
    p: Seq<u8>,
    ctx: Secp256r1Context,
) -> bool {
    &&& secp256r1_counter_outcome(accounts, auth_data, header_size, stored_counter, p, ctx) is Ok
    &&& p.skip(authenticator_data_offset(p)).take(32) == ctx.rp_id_hash@
}

/// The outcome of a secp256r1 authentication: the counter to store, the expected
/// public key and the signed message, or the error.
pub open spec fn secp256r1_outcome(
    accounts: Seq<AccountView>,
    auth_data: Seq<u8>,
    header_size: int,
    stored_counter: u64,
    p: Seq<u8>,
    ctx: Secp256r1Context,
) -> Result<(u64, Seq<u8>, Seq<u8>), ProgramError> {
    match secp256r1_counter_outcome(accounts, auth_data, header_size, stored_counter, p, ctx) {
        Err(e) => Err(e),
        Ok(counter) => {
            let ad = p.skip(authenticator_data_offset(p));
            if ad.take(32) != ctx.rp_id_hash@ {
                Err(ProgramError::Auth(AuthError::InvalidPubkey))
            } else if p[8] >= accounts.len() {
                Err(ProgramError::Auth(AuthError::InvalidAuthorityPayload))
            } else if accounts[p[8] as int].key@ != INSTRUCTIONS_SYSVAR_ID@ {
                Err(ProgramError::Auth(AuthError::InvalidInstruction))
            } else if ctx.current_instruction_index == 0 {
                Err(ProgramError::Auth(AuthError::InvalidInstruction))
            } else if ctx.previous_program_id@ != SECP256R1_PROGRAM_ID@ {
                Err(ProgramError::Auth(AuthError::InvalidInstruction))
            } else {
                let pubkey_offset = header_size + CREDENTIAL_HASH_LEN;
                Ok(
                    (
                        counter,
                        auth_data.subrange(pubkey_offset, pubkey_offset + COMPRESSED_PUBKEY_LEN),
                        ad + ctx.client_data_hash@,
                    ),
                )
            }
        },
    }
}

impl Secp256r1Authenticator {
    /// Authenticates a Secp256r1 signature (WebAuthn/Passkeys).
    ///
    /// * `accounts`: the instruction's accounts; the first is the payer.
    /// * `auth_data`: the authority account data: header (`header_size` bytes),
    ///   credential id hash (32), compressed public key (33).
    /// * `header`: the header read from `auth_data`; once the replay rule accepts the
    ///   authenticator's counter, the counter is stored in it, whatever comes after.
    /// * `auth_payload`: the payload (see the module docs).
    /// * `ctx`: what the runtime supplies (nonce check, hashes, instruction sysvar).
    ///
    /// Authority data that passes the checks up to the RP ID hash must hold the public
    /// key: the key is read there.
    #[verifier::spinoff_prover]
    pub fn authenticate(
        &self,
        accounts: &[AccountView],
        auth_data: &[u8],
        header_size: usize,
        header: &mut AuthorityHeader,
        auth_payload: &[u8],
        ctx: &Secp256r1Context,
    ) -> (r: Result<Secp256r1Verified, ProgramError>)
        requires
            reaches_pubkey(accounts@, auth_data@, header_size as int, old(header).counter, auth_payload@, *ctx)
                ==> auth_data@.len() >= header_size + CREDENTIAL_HASH_LEN + COMPRESSED_PUBKEY_LEN,
        ensures
            match (r, secp256r1_outcome(accounts@, auth_data@, header_size as int, old(header).counter, auth_payload@, *ctx)) {
                (Ok(v), Ok((c, k, m))) => v.new_counter == c && v.expected_pubkey@ == k && v.signed_message@ == m,
                (Err(e), Err(f)) => e == f,
                _ => false,
            },
            final(header).counter == match secp256r1_counter_outcome(
                accounts@,
                auth_data@,
                header_size as int,
                old(header).counter,
                auth_payload@,
                *ctx,
            ) {
                Ok(c) => c,
                Err(_) => old(header).counter,
            },
            final(header).discriminator == old(header).discriminator,
            final(header).authority_type == old(header).authority_type,
            final(header).wallet == old(header).wallet,
    {
        let payload = match parse_auth_payload(auth_payload) {
            Ok(p) => p,
            Err(e) => return Err(e),
        };
        // Validate Nonce (SlotHashes)
        if payload.sysvar_slothashes_index as usize >= accounts.len() {
            return Err(ProgramError::Auth(AuthError::InvalidAuthorityPayload));
        }
        match ctx.nonce_check {
            Ok(()) => {},
            Err(e) => return Err(e),
        }
        if auth_data.len() < header_size {
            return Err(ProgramError::Auth(AuthError::InvalidAuthorityPayload));
        }
        // Verify payer is signer (for challenge computation)
        if !accounts[0].is_signer {
            return Err(ProgramError::MissingRequiredSignature);
        }
        // Verify clientDataJSON contains the expected challenge, and is an assertion.
        let json = payload.client_data_json.as_slice();
        match verify_client_data_json_challenge(json, vstd::array::array_as_slice(&ctx.expected_challenge)) {
            Ok(()) => {},
            Err(e) => return Err(e),
        }
        match verify_client_data_json_type_get(json) {
            Ok(()) => {},
            Err(e) => return Err(e),
        }
        let parser = AuthDataParser::new(payload.authenticator_data.as_slice());
        if !parser.is_user_present() {
            return Err(ProgramError::Auth(AuthError::PermissionDenied));
        }
        let new_counter = match check_counter(header.counter, parser.counter() as u64) {
            Ok(c) => c,
            Err(e) => return Err(e),
        };
        header.counter = new_counter;
        // Verify domain: the authenticator signed over the hash of this RP ID.
        if !bytes_eq(parser.rp_id_hash(), vstd::array::array_as_slice(&ctx.rp_id_hash)) {
            return Err(ProgramError::Auth(AuthError::InvalidPubkey));
        }
        // The 33-byte compressed key, after the credential id hash.
        let pubkey_offset = header_size + CREDENTIAL_HASH_LEN;
        let expected_pubkey = vstd::slice::slice_to_vec(
            vstd::slice::slice_subrange(auth_data, pubkey_offset, pubkey_offset + COMPRESSED_PUBKEY_LEN),
        );
        // Signed message: authenticatorData || sha256(clientDataJSON)
        let mut signed_message: Vec<u8> = Vec::new();
        extend_bytes(&mut signed_message, payload.authenticator_data.as_slice());
        extend_bytes(&mut signed_message, vstd::array::array_as_slice(&ctx.client_data_hash));

        if payload.sysvar_ix_index as usize >= accounts.len() {
            return Err(ProgramError::Auth(AuthError::InvalidAuthorityPayload));
        }
        if !pubkey_eq(&accounts[payload.sysvar_ix_index as usize].key, &INSTRUCTIONS_SYSVAR_ID) {
            return Err(ProgramError::Auth(AuthError::InvalidInstruction));
        }
        if ctx.current_instruction_index == 0 {
            return Err(ProgramError::Auth(AuthError::InvalidInstruction));
        }
        if !pubkey_eq(&ctx.previous_program_id, &SECP256R1_PROGRAM_ID) {
            return Err(ProgramError::Auth(AuthError::InvalidInstruction));
        }
        Ok(Secp256r1Verified { new_counter, expected_pubkey, signed_message })
    }
}

} // verus!
