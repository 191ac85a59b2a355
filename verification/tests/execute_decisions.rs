use wallet_program::account::AccountView;
use wallet_program::entrypoint::{decode_instruction, Instruction};
use wallet_program::error::{AuthError, ProgramError};
use wallet_program::processor::execute::{
    authenticate_and_process, auth_route, check_cpi_program, check_execute, check_execute_accounts, cpi_signer_flag,
    derive_vault, enforce_spending_limit, execute_challenge_preimage, fee_transfer,
    inner_instructions, process,
    process_with_vault_address, referenced_account_keys, secp256r1_signed_payload, settle_spending,
    validate_session, vault_signer_seeds, AuthRoute, CompactInstruction, CpiAccountMeta,
    CpiInstruction,
};
use wallet_program::processor::init_fee_config::initial_fee_config_data;
use wallet_program::secp256r1::{Secp256r1Context, INSTRUCTIONS_SYSVAR_ID, SECP256R1_PROGRAM_ID};
use wallet_program::state::authority::AuthorityHeader;
use wallet_program::webauthn::base64url_encode_no_pad;

const PROGRAM: [u8; 32] = [9; 32];

fn account(key: [u8; 32], owner: [u8; 32], is_signer: bool, is_writable: bool, data: Vec<u8>) -> AccountView {
    AccountView { key, owner, is_signer, is_writable, lamports: 0, data }
}

fn execute_accounts() -> Vec<AccountView> {
    vec![
        account([1; 32], [0; 32], true, true, vec![]),
        account([2; 32], PROGRAM, false, false, vec![1, 0, 0]),
        account([3; 32], PROGRAM, true, true, vec![2, 1]),
        account([4; 32], [0; 32], false, true, vec![]),
        account([5; 32], PROGRAM, false, false, initial_fee_config_data(&[7; 32], &[6; 32])),
        account([6; 32], [0; 32], false, true, vec![]),
        account([0; 32], [0; 32], false, false, vec![]),
    ]
}

#[test]
fn execute_account_checks() {
    let a = execute_accounts();
    assert_eq!(check_execute_accounts(&PROGRAM, &a), Ok(2));
    assert_eq!(check_execute_accounts(&PROGRAM, &a[..6]), Err(ProgramError::NotEnoughAccountKeys));

    let mut b = execute_accounts();
    b[5].key = [8; 32];
    assert_eq!(check_execute_accounts(&PROGRAM, &b), Err(ProgramError::InvalidAccountData));
    let mut b = execute_accounts();
    b[4].owner = [8; 32];
    assert_eq!(check_execute_accounts(&PROGRAM, &b), Err(ProgramError::IllegalOwner));
    let mut b = execute_accounts();
    b[6].key = [8; 32];
    assert_eq!(check_execute_accounts(&PROGRAM, &b), Err(ProgramError::IncorrectProgramId));
    let mut b = execute_accounts();
    b[1].data = vec![2];
    assert_eq!(check_execute_accounts(&PROGRAM, &b), Err(ProgramError::InvalidAccountData));
    let mut b = execute_accounts();
    b[2].is_writable = false;
    assert_eq!(check_execute_accounts(&PROGRAM, &b), Err(ProgramError::InvalidAccountData));
    let mut b = execute_accounts();
    b[2].owner = [8; 32];
    assert_eq!(check_execute_accounts(&PROGRAM, &b), Err(ProgramError::IllegalOwner));
}

#[test]
fn authentication_routes() {
    let header = AuthorityHeader { discriminator: 2, authority_type: 1, wallet: [2; 32], counter: 0 };
    assert_eq!(auth_route(2, 100, 48, &header, &[2; 32]), Ok(AuthRoute::Secp256r1));
    let ed = AuthorityHeader { authority_type: 0, ..header };
    assert_eq!(auth_route(2, 100, 48, &ed, &[2; 32]), Ok(AuthRoute::Ed25519));
    let unknown = AuthorityHeader { authority_type: 7, ..header };
    assert_eq!(
        auth_route(2, 100, 48, &unknown, &[2; 32]),
        Err(ProgramError::Auth(AuthError::InvalidAuthenticationKind))
    );
    assert_eq!(auth_route(2, 100, 48, &header, &[3; 32]), Err(ProgramError::InvalidAccountData));
    assert_eq!(auth_route(2, 47, 48, &header, &[2; 32]), Err(ProgramError::InvalidAccountData));
    assert_eq!(auth_route(3, 0, 48, &header, &[2; 32]), Ok(AuthRoute::Session));
    assert_eq!(auth_route(4, 100, 48, &header, &[2; 32]), Err(ProgramError::InvalidAccountData));
}

#[test]
fn referenced_keys_in_order() {
    let a = execute_accounts();
    let ixs = vec![
        CompactInstruction { program_id_index: 6, accounts: vec![3, 5], data: vec![] },
        CompactInstruction { program_id_index: 0, accounts: vec![], data: vec![1] },
    ];
    let keys = referenced_account_keys(&a, &ixs).unwrap();
    let mut expected = vec![0u8; 32];
    expected.extend_from_slice(&[4; 32]);
    expected.extend_from_slice(&[6; 32]);
    expected.extend_from_slice(&[1; 32]);
    assert_eq!(keys, expected);

    let bad = vec![CompactInstruction { program_id_index: 0, accounts: vec![7], data: vec![] }];
    assert_eq!(referenced_account_keys(&a, &bad), Err(ProgramError::InvalidInstructionData));
    let bad = vec![CompactInstruction { program_id_index: 9, accounts: vec![], data: vec![] }];
    assert_eq!(referenced_account_keys(&a, &bad), Err(ProgramError::InvalidInstructionData));
}

#[test]
fn signed_payload_appends_accounts_hash() {
    let r = secp256r1_signed_payload(&[1, 2, 3, 4], 2, &[0xAA; 32]);
    let mut expected = vec![1u8, 2];
    expected.extend_from_slice(&[0xAA; 32]);
    assert_eq!(r, expected);
}

#[test]
fn vault_is_only_derivable_on_chain() {
    assert_eq!(derive_vault(&PROGRAM, &[2; 32]), None);
}

fn session_data(expires_at: u64, flags: u8, max: u64, spent: u64) -> Vec<u8> {
    let mut d = vec![3u8, 255, 3, flags, 0, 0, 0, 0];
    d.extend_from_slice(&[2; 32]);
    d.extend_from_slice(&[0x5E; 32]);
    d.extend_from_slice(&expires_at.to_le_bytes());
    d.extend_from_slice(&[0xC0; 32]);
    d.extend_from_slice(&max.to_le_bytes());
    d.extend_from_slice(&spent.to_le_bytes());
    d
}

#[test]
fn session_validation() {
    let mut a = execute_accounts();
    a.push(account([0x5E; 32], [0; 32], true, false, vec![]));
    let d = session_data(100, 0, 1000, 0);
    assert_eq!(validate_session(&d, &[2; 32], 100, &a), Ok(Some([0xC0; 32])));
    assert_eq!(validate_session(&d[..80], &[2; 32], 100, &a), Ok(None));
    assert_eq!(validate_session(&d[..79], &[2; 32], 100, &a), Err(ProgramError::InvalidAccountData));
    assert_eq!(validate_session(&d, &[3; 32], 100, &a), Err(ProgramError::InvalidAccountData));
    assert_eq!(
        validate_session(&d, &[2; 32], 101, &a),
        Err(ProgramError::Auth(AuthError::SessionExpired))
    );
    let revoked = session_data(100, 1, 1000, 0);
    assert_eq!(
        validate_session(&revoked, &[2; 32], 100, &a),
        Err(ProgramError::Auth(AuthError::SessionExpired))
    );
    // A legacy session has no revocation flag.
    assert_eq!(validate_session(&revoked[..80], &[2; 32], 100, &a), Ok(None));
    let b = execute_accounts();
    assert_eq!(validate_session(&d, &[2; 32], 100, &b), Err(ProgramError::MissingRequiredSignature));
}

fn expected_fee_transfer() -> CpiInstruction {
    let mut data = vec![2u8, 0, 0, 0];
    data.extend_from_slice(&5_000u64.to_le_bytes());
    CpiInstruction {
        program_id: [0; 32],
        accounts: vec![
            CpiAccountMeta { pubkey: [4; 32], is_signer: true, is_writable: true },
            CpiAccountMeta { pubkey: [6; 32], is_signer: false, is_writable: true },
        ],
        data,
    }
}

#[test]
fn base_fee() {
    let mut vault = account([4; 32], [0; 32], false, true, vec![]);
    let recipient = account([6; 32], [0; 32], false, true, vec![]);
    vault.lamports = 4_999;
    assert_eq!(fee_transfer(&vault, &recipient), None);
    vault.lamports = 5_000;
    assert_eq!(fee_transfer(&vault, &recipient), Some(expected_fee_transfer()));
    // The transfer itself does not look at the recipient's flags; Execute refuses a
    // read-only fee recipient before it.
    let read_only = account([6; 32], [0; 32], false, false, vec![]);
    vault.lamports = 1_000;
    assert_eq!(fee_transfer(&vault, &read_only), None);
}

#[test]
fn vault_seeds() {
    let seeds = vault_signer_seeds(&[2; 32], 254);
    assert_eq!(seeds, vec![b"vault".to_vec(), vec![2u8; 32], vec![254u8]]);
}

#[test]
fn inner_instructions_signed_by_vault() {
    let mut a = execute_accounts();
    a.push(account([0x70; 32], [0; 32], false, false, vec![]));
    a.push(account([0x71; 32], [0; 32], true, false, vec![]));
    let ixs = vec![
        CompactInstruction { program_id_index: 7, accounts: vec![3, 8, 5], data: vec![1, 2] },
        CompactInstruction { program_id_index: 6, accounts: vec![], data: vec![] },
    ];
    let out = inner_instructions(&PROGRAM, &a, &ixs, &[4; 32]).unwrap();
    assert_eq!(out.len(), 2);
    assert_eq!(out[0].program_id, [0x70; 32]);
    assert_eq!(
        out[0].accounts,
        vec![
            CpiAccountMeta { pubkey: [4; 32], is_signer: true, is_writable: true },
            CpiAccountMeta { pubkey: [0x71; 32], is_signer: true, is_writable: false },
            CpiAccountMeta { pubkey: [6; 32], is_signer: false, is_writable: true },
        ]
    );
    assert_eq!(out[0].data, vec![1, 2]);
    assert_eq!(out[1], CpiInstruction { program_id: [0; 32], accounts: vec![], data: vec![] });
    // A CPI back into the program is refused.
    a[8].key = PROGRAM;
    let ixs = vec![
        CompactInstruction { program_id_index: 7, accounts: vec![], data: vec![] },
        CompactInstruction { program_id_index: 8, accounts: vec![], data: vec![] },
    ];
    assert!(matches!(
        inner_instructions(&PROGRAM, &a, &ixs, &[4; 32]),
        Err(ProgramError::Auth(AuthError::SelfReentrancyNotAllowed))
    ));
}

#[test]
fn cpi_guards() {
    assert_eq!(check_cpi_program(&PROGRAM, &[1; 32]), Ok(()));
    assert_eq!(
        check_cpi_program(&PROGRAM, &PROGRAM),
        Err(ProgramError::Auth(AuthError::SelfReentrancyNotAllowed))
    );
    let vault = account([4; 32], [0; 32], false, true, vec![]);
    assert!(cpi_signer_flag(&vault, &[4; 32]));
    assert!(!cpi_signer_flag(&vault, &[5; 32]));
    let signer = account([1; 32], [0; 32], true, false, vec![]);
    assert!(cpi_signer_flag(&signer, &[5; 32]));
}

#[test]
fn spending_limit() {
    let d = session_data(100, 0, 1000, 100);
    // Deposits are ignored.
    assert_eq!(enforce_spending_limit(&d, 10, 20), Ok(d.clone()));
    let r = enforce_spending_limit(&d, 1000, 500).unwrap();
    assert_eq!(u64::from_le_bytes(r[120..128].try_into().unwrap()), 600);
    assert_eq!(&r[..120], &d[..120]);
    assert_eq!(
        enforce_spending_limit(&d, 1000, 99),
        Err(ProgramError::Auth(AuthError::SpendingLimitExceeded))
    );
}

#[test]
fn instruction_routing() {
    assert_eq!(decode_instruction(&[]), Err(ProgramError::InvalidInstructionData));
    assert_eq!(decode_instruction(&[8, 1]), Err(ProgramError::InvalidInstructionData));
    assert_eq!(decode_instruction(&[4, 1, 2]), Ok((Instruction::Execute, &[1u8, 2][..])));
    assert_eq!(decode_instruction(&[0]), Ok((Instruction::CreateWallet, &[][..])));
    assert_eq!(decode_instruction(&[7, 9]), Ok((Instruction::UpdateFeeRecipient, &[9u8][..])));
    assert_eq!(decode_instruction(&[6]), Ok((Instruction::InitFeeConfig, &[][..])));
}

#[test]
fn execute_checks_in_order() {
    let header = AuthorityHeader { discriminator: 2, authority_type: 1, wallet: [2; 32], counter: 0 };
    let a = execute_accounts();
    let vault = [4u8; 32];
    // Account checks come first.
    assert!(matches!(
        process(&PROGRAM, &a[..3], Ok(()), &header, 2, Ok(()), 0),
        Err(ProgramError::NotEnoughAccountKeys)
    ));
    // Then the compact instructions.
    assert!(matches!(
        process_with_vault_address(&PROGRAM, &a, Err(ProgramError::InvalidInstructionData), &header, 2, Ok(()), 0, &vault, 1),
        Err(ProgramError::InvalidInstructionData)
    ));
    // Then the authority header and the authentication.
    let other_wallet = AuthorityHeader { wallet: [3; 32], ..header };
    assert!(matches!(
        process_with_vault_address(&PROGRAM, &a, Ok(()), &other_wallet, 2, Ok(()), 0, &vault, 1),
        Err(ProgramError::InvalidAccountData)
    ));
    assert!(matches!(
        process_with_vault_address(&PROGRAM, &a, Ok(()), &header, 2, Err(ProgramError::Auth(AuthError::InvalidPubkey)), 0, &vault, 1),
        Err(ProgramError::Auth(AuthError::InvalidPubkey))
    ));
    // Off the Solana runtime the vault PDA cannot be derived.
    assert!(matches!(process(&PROGRAM, &a, Ok(()), &header, 2, Ok(()), 0), Err(ProgramError::InvalidSeeds)));
    // The checks before the derivation answer on their own.
    assert!(matches!(
        process(&PROGRAM, &a, Err(ProgramError::InvalidInstructionData), &header, 2, Ok(()), 0),
        Err(ProgramError::InvalidInstructionData)
    ));
    assert!(matches!(
        process(&PROGRAM, &a, Ok(()), &header, 2, Err(ProgramError::Auth(AuthError::InvalidPubkey)), 0),
        Err(ProgramError::Auth(AuthError::InvalidPubkey))
    ));
    let mut b = execute_accounts();
    b[4].owner = [8; 32];
    assert!(matches!(process(&PROGRAM, &b, Ok(()), &header, 2, Ok(()), 0), Err(ProgramError::IllegalOwner)));
    assert_eq!(check_execute(&PROGRAM, &a, Ok(()), &header, 2, Ok(())), Ok(AuthRoute::Secp256r1));
    let ed = AuthorityHeader { authority_type: 0, ..header };
    assert_eq!(check_execute(&PROGRAM, &a, Ok(()), &ed, 2, Ok(())), Ok(AuthRoute::Ed25519));
    let bad_kind = AuthorityHeader { authority_type: 7, ..header };
    assert_eq!(
        check_execute(&PROGRAM, &a, Ok(()), &bad_kind, 2, Ok(())),
        Err(ProgramError::Auth(AuthError::InvalidAuthenticationKind))
    );
}

#[test]
fn session_spending_settled() {
    let header = AuthorityHeader { discriminator: 2, authority_type: 1, wallet: [2; 32], counter: 0 };
    let mut s = execute_accounts();
    s[2].data = session_data(100, 0, 1000, 100);
    s[3].lamports = 4_000;
    s.push(account([0x5E; 32], [0; 32], true, false, vec![]));
    let plan = process_with_vault_address(&PROGRAM, &s, Ok(()), &header, 2, Ok(()), 50, &[4; 32], 1).unwrap();
    let d = settle_spending(&plan, &s[2].data, 3_500).unwrap().unwrap();
    assert_eq!(u64::from_le_bytes(d[120..128].try_into().unwrap()), 600);
    assert_eq!(
        settle_spending(&plan, &s[2].data, 3_000),
        Err(ProgramError::Auth(AuthError::SpendingLimitExceeded))
    );
    // An authority's Execute has no spending to record.
    let a = execute_accounts();
    let plan = process_with_vault_address(&PROGRAM, &a, Ok(()), &header, 2, Ok(()), 0, &[4; 32], 1).unwrap();
    assert_eq!(settle_spending(&plan, &[], 0), Ok(None));
}

#[test]
fn execute_plans() {
    let header = AuthorityHeader { discriminator: 2, authority_type: 1, wallet: [2; 32], counter: 0 };
    let mut a = execute_accounts();
    a[3].lamports = 10_000;
    let plan = process_with_vault_address(&PROGRAM, &a, Ok(()), &header, 2, Ok(()), 0, &[4; 32], 253).unwrap();
    assert_eq!(plan.route, AuthRoute::Secp256r1);
    assert_eq!(plan.vault_bump, 253);
    assert_eq!(plan.session_mint, None);
    assert_eq!(plan.balance_before, 0);
    assert_eq!(plan.fee_transfer, Some(expected_fee_transfer()));
    // The wrong vault.
    assert!(matches!(
        process_with_vault_address(&PROGRAM, &a, Ok(()), &header, 2, Ok(()), 0, &[5; 32], 253),
        Err(ProgramError::InvalidSeeds)
    ));
    // A read-only fee recipient.
    let mut b = execute_accounts();
    b[5].is_writable = false;
    assert!(matches!(
        process_with_vault_address(&PROGRAM, &b, Ok(()), &header, 2, Ok(()), 0, &[4; 32], 253),
        Err(ProgramError::InvalidAccountData)
    ));

    // A V3 session: the authentication outcome plays no part, the limit applies.
    let mut s = execute_accounts();
    s[2].data = session_data(100, 0, 1000, 0);
    s[3].lamports = 4_000;
    s.push(account([0x5E; 32], [0; 32], true, false, vec![]));
    let plan = process_with_vault_address(
        &PROGRAM, &s, Ok(()), &header, 2, Err(ProgramError::MissingRequiredSignature), 50, &[4; 32], 1,
    )
    .unwrap();
    assert_eq!(plan.route, AuthRoute::Session);
    assert_eq!(plan.session_mint, Some([0xC0; 32]));
    assert_eq!(plan.balance_before, 4_000);
    assert_eq!(plan.fee_transfer, None);
    assert!(matches!(
        process_with_vault_address(&PROGRAM, &s, Ok(()), &header, 2, Ok(()), 101, &[4; 32], 1),
        Err(ProgramError::Auth(AuthError::SessionExpired))
    ));
}

#[test]
fn spending_stays_within_limit_over_executes() {
    // max 1000, nothing spent yet.
    let d0 = session_data(100, 0, 1000, 0);
    let d1 = enforce_spending_limit(&d0, 5_000, 4_400).unwrap();
    assert_eq!(u64::from_le_bytes(d1[120..128].try_into().unwrap()), 600);
    let d2 = enforce_spending_limit(&d1, 4_400, 4_000).unwrap();
    assert_eq!(u64::from_le_bytes(d2[120..128].try_into().unwrap()), 1000);
    // One more lamport would exceed the limit.
    assert_eq!(
        enforce_spending_limit(&d2, 4_000, 3_999),
        Err(ProgramError::Auth(AuthError::SpendingLimitExceeded))
    );
}

#[test]
fn execute_challenge_covers_compact_instructions_and_accounts_hash() {
    let mut data = vec![1u8, 2, 3];
    // auth payload: slot 9, indices 0 and 0, rp_id "rp", clientDataJSON length 0.
    let mut auth = 9u64.to_le_bytes().to_vec();
    auth.extend_from_slice(&[0, 0, 2, b'r', b'p', 0, 0]);
    data.extend_from_slice(&auth);
    let a = execute_accounts();
    let r = execute_challenge_preimage(&a, &data, 3, &[0xAB; 32]).unwrap();
    let mut expected = vec![4u8];
    expected.extend_from_slice(&auth[..13]);
    expected.extend_from_slice(&[1, 2, 3]);
    expected.extend_from_slice(&[0xAB; 32]);
    expected.extend_from_slice(&9u64.to_le_bytes());
    expected.extend_from_slice(&[1; 32]);
    assert_eq!(r, expected);
    assert_eq!(execute_challenge_preimage(&a, &data[..10], 3, &[0xAB; 32]), None);
}

fn secp256r1_execute_setup() -> (Vec<AccountView>, Vec<u8>, Secp256r1Context) {
    let mut a = execute_accounts();
    let mut authority = vec![2u8, 1];
    authority.extend_from_slice(&[0; 14]);
    authority.extend_from_slice(&[0xEE; 32]);
    authority.extend_from_slice(&[0x02; 33]);
    a[2].data = authority;
    a.push(account(INSTRUCTIONS_SYSVAR_ID, [0; 32], false, false, vec![]));
    let mut json = b"{\"type\":\"webauthn.get\",\"challenge\":\"".to_vec();
    json.extend_from_slice(&base64url_encode_no_pad(&[0x42; 32]));
    json.extend_from_slice(b"\"}");
    let mut auth = vec![0x11u8; 32];
    auth.push(0x05);
    auth.extend_from_slice(&9u32.to_be_bytes());
    // compact instructions, then the auth payload
    let mut data = vec![1u8, 2, 3];
    data.extend_from_slice(&7u64.to_le_bytes());
    data.extend_from_slice(&[7, 0, 2, b'r', b'p']);
    data.extend_from_slice(&(json.len() as u16).to_le_bytes());
    data.extend_from_slice(&json);
    data.extend_from_slice(&auth);
    let ctx = Secp256r1Context {
        nonce_check: Ok(()),
        rp_id_hash: [0x11; 32],
        expected_challenge: [0x42; 32],
        client_data_hash: [0x33; 32],
        current_instruction_index: 1,
        previous_program_id: SECP256R1_PROGRAM_ID,
    };
    (a, data, ctx)
}

#[test]
fn execute_authenticates_a_secp256r1_authority() {
    let (a, data, ctx) = secp256r1_execute_setup();
    let mut header = AuthorityHeader { discriminator: 2, authority_type: 1, wallet: [2; 32], counter: 8 };
    // Authenticated: the counter is stored; off the Solana runtime the vault cannot be derived.
    let r = authenticate_and_process(&PROGRAM, &a, &data, Ok(()), 3, &mut header, 16, Ok(()), &ctx, 0);
    assert!(matches!(r, Err(ProgramError::InvalidSeeds)));
    assert_eq!(header.counter, 9);
    // A replayed assertion is refused before the vault.
    let r = authenticate_and_process(&PROGRAM, &a, &data, Ok(()), 3, &mut header, 16, Ok(()), &ctx, 0);
    assert!(matches!(r, Err(ProgramError::Auth(AuthError::SignatureReused))));
    // The payload is read after the compact instructions.
    let mut header = AuthorityHeader { discriminator: 2, authority_type: 1, wallet: [2; 32], counter: 8 };
    let r = authenticate_and_process(&PROGRAM, &a, &data, Ok(()), 2, &mut header, 16, Ok(()), &ctx, 0);
    assert!(r.is_err());
    assert!(!matches!(r, Err(ProgramError::InvalidSeeds)));
    assert_eq!(header.counter, 8);
    // The Ed25519 outcome plays no part for a secp256r1 authority.
    let mut header = AuthorityHeader { discriminator: 2, authority_type: 1, wallet: [2; 32], counter: 8 };
    let r = authenticate_and_process(
        &PROGRAM, &a, &data, Ok(()), 3, &mut header, 16, Err(ProgramError::MissingRequiredSignature), &ctx, 0,
    );
    assert!(matches!(r, Err(ProgramError::InvalidSeeds)));
}

#[test]
fn execute_uses_the_ed25519_outcome_for_an_ed25519_authority() {
    let (a, data, ctx) = secp256r1_execute_setup();
    let mut header = AuthorityHeader { discriminator: 2, authority_type: 0, wallet: [2; 32], counter: 8 };
    let r = authenticate_and_process(
        &PROGRAM, &a, &data, Ok(()), 3, &mut header, 16, Err(ProgramError::MissingRequiredSignature), &ctx, 0,
    );
    assert!(matches!(r, Err(ProgramError::MissingRequiredSignature)));
    assert_eq!(header.counter, 8);
    let r = authenticate_and_process(&PROGRAM, &a, &data, Ok(()), 3, &mut header, 16, Ok(()), &ctx, 0);
    assert!(matches!(r, Err(ProgramError::InvalidSeeds)));
    assert_eq!(header.counter, 8);
    // The compact instructions are checked before the authentication.
    let mut header = AuthorityHeader { discriminator: 2, authority_type: 1, wallet: [2; 32], counter: 8 };
    let r = authenticate_and_process(
        &PROGRAM, &a, &data, Err(ProgramError::InvalidInstructionData), 0, &mut header, 16, Ok(()), &ctx, 0,
    );
    assert!(matches!(r, Err(ProgramError::InvalidInstructionData)));
    assert_eq!(header.counter, 8);
}
