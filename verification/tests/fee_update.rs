use wallet_program::account::AccountView;
use wallet_program::error::ProgramError;
use wallet_program::processor::init_fee_config::{self, initial_fee_config_data};
use wallet_program::processor::update_fee_recipient::{
    self, process_with_fee_config_address, update_fee_config,
};
use wallet_program::state::fee::{derive_fee_config, FEE_CONFIG_SIZE, TIMELOCK_SLOTS};

const PROGRAM: [u8; 32] = [9; 32];
const FEE_CONFIG: [u8; 32] = [8; 32];
const AUTHORITY: [u8; 32] = [1; 32];
const RECIPIENT: [u8; 32] = [2; 32];
const NEW_RECIPIENT: [u8; 32] = [3; 32];

fn account(key: [u8; 32], owner: [u8; 32], is_signer: bool, is_writable: bool, data: Vec<u8>) -> AccountView {
    AccountView { key, owner, is_signer, is_writable, lamports: 0, data }
}

fn pending_valid_at(d: &[u8]) -> u64 {
    u64::from_le_bytes(d[97..105].try_into().unwrap())
}

#[test]
fn initial_layout() {
    let d = initial_fee_config_data(&AUTHORITY, &RECIPIENT);
    assert_eq!(d.len(), FEE_CONFIG_SIZE);
    assert_eq!(d[0], 4);
    assert_eq!(&d[1..33], &AUTHORITY);
    assert_eq!(&d[33..65], &RECIPIENT);
    assert_eq!(&d[65..97], &[0u8; 32]);
    assert_eq!(pending_valid_at(&d), 0);
}

#[test]
fn stage_then_apply_after_timelock() {
    let d0 = initial_fee_config_data(&AUTHORITY, &RECIPIENT);
    let d1 = update_fee_config(&d0, &AUTHORITY, &NEW_RECIPIENT, 100).unwrap();
    assert_eq!(&d1[33..65], &RECIPIENT);
    assert_eq!(&d1[65..97], &NEW_RECIPIENT);
    assert_eq!(pending_valid_at(&d1), 100 + TIMELOCK_SLOTS);
    // Too early.
    assert_eq!(
        update_fee_config(&d1, &AUTHORITY, &[5; 32], 100 + TIMELOCK_SLOTS - 1),
        Err(ProgramError::Custom(1))
    );
    // After the timelock: the staged recipient applies, whatever the new argument.
    let d2 = update_fee_config(&d1, &AUTHORITY, &[5; 32], 100 + TIMELOCK_SLOTS).unwrap();
    assert_eq!(&d2[33..65], &NEW_RECIPIENT);
    assert_eq!(&d2[65..97], &[0u8; 32]);
    assert_eq!(pending_valid_at(&d2), 0);
    assert_eq!(&d2[1..33], &AUTHORITY);
}

#[test]
fn update_errors() {
    let d0 = initial_fee_config_data(&AUTHORITY, &RECIPIENT);
    assert_eq!(update_fee_config(&d0, &[7; 32], &NEW_RECIPIENT, 1), Err(ProgramError::InvalidAccountData));
    assert_eq!(update_fee_config(&d0[..104], &AUTHORITY, &NEW_RECIPIENT, 1), Err(ProgramError::InvalidAccountData));
    let mut wrong = d0.clone();
    wrong[0] = 3;
    assert_eq!(update_fee_config(&wrong, &AUTHORITY, &NEW_RECIPIENT, 1), Err(ProgramError::InvalidAccountData));
    assert_eq!(
        update_fee_config(&d0, &AUTHORITY, &NEW_RECIPIENT, u64::MAX - TIMELOCK_SLOTS + 1),
        Err(ProgramError::ArithmeticOverflow)
    );
}

#[test]
fn update_account_checks() {
    let d0 = initial_fee_config_data(&AUTHORITY, &RECIPIENT);
    let ok_accounts = vec![
        account(AUTHORITY, [0; 32], true, false, vec![]),
        account(FEE_CONFIG, PROGRAM, false, true, d0.clone()),
    ];
    let r = process_with_fee_config_address(&PROGRAM, &ok_accounts, &NEW_RECIPIENT, 5, &FEE_CONFIG).unwrap();
    assert_eq!(&r[65..97], &NEW_RECIPIENT);

    assert_eq!(
        process_with_fee_config_address(&PROGRAM, &ok_accounts, &NEW_RECIPIENT[..31], 5, &FEE_CONFIG),
        Err(ProgramError::InvalidInstructionData)
    );
    assert_eq!(
        process_with_fee_config_address(&PROGRAM, &ok_accounts[..1], &NEW_RECIPIENT, 5, &FEE_CONFIG),
        Err(ProgramError::NotEnoughAccountKeys)
    );
    let unsigned = vec![
        account(AUTHORITY, [0; 32], false, false, vec![]),
        account(FEE_CONFIG, PROGRAM, false, true, d0.clone()),
    ];
    assert_eq!(
        process_with_fee_config_address(&PROGRAM, &unsigned, &NEW_RECIPIENT, 5, &FEE_CONFIG),
        Err(ProgramError::MissingRequiredSignature)
    );
    let readonly = vec![
        account(AUTHORITY, [0; 32], true, false, vec![]),
        account(FEE_CONFIG, PROGRAM, false, false, d0.clone()),
    ];
    assert_eq!(
        process_with_fee_config_address(&PROGRAM, &readonly, &NEW_RECIPIENT, 5, &FEE_CONFIG),
        Err(ProgramError::InvalidAccountData)
    );
    let foreign = vec![
        account(AUTHORITY, [0; 32], true, false, vec![]),
        account(FEE_CONFIG, [6; 32], false, true, d0.clone()),
    ];
    assert_eq!(
        process_with_fee_config_address(&PROGRAM, &foreign, &NEW_RECIPIENT, 5, &FEE_CONFIG),
        Err(ProgramError::IllegalOwner)
    );
    assert_eq!(
        process_with_fee_config_address(&PROGRAM, &ok_accounts, &NEW_RECIPIENT, 5, &[4; 32]),
        Err(ProgramError::InvalidSeeds)
    );
}

#[test]
fn pda_derivation_is_only_available_on_chain() {
    // Off the Solana runtime, no program address can be derived.
    assert_eq!(derive_fee_config(&PROGRAM), None);
    let d0 = initial_fee_config_data(&AUTHORITY, &RECIPIENT);
    let accounts = vec![
        account(AUTHORITY, [0; 32], true, false, vec![]),
        account(FEE_CONFIG, PROGRAM, false, true, d0),
    ];
    assert_eq!(
        update_fee_recipient::process(&PROGRAM, &accounts, &NEW_RECIPIENT, 5),
        Err(ProgramError::InvalidSeeds)
    );
    let init_accounts = vec![
        account([5; 32], [0; 32], true, true, vec![]),
        account(FEE_CONFIG, [0; 32], false, true, vec![]),
        account([0; 32], [0; 32], false, false, vec![]),
    ];
    assert!(matches!(
        init_fee_config::process(&PROGRAM, &init_accounts, &[0u8; 64]),
        Err(ProgramError::InvalidSeeds)
    ));
}

#[test]
fn checks_before_the_derivation_answer_on_their_own() {
    let d0 = initial_fee_config_data(&AUTHORITY, &RECIPIENT);
    let accounts = vec![
        account(AUTHORITY, [0; 32], true, false, vec![]),
        account(FEE_CONFIG, PROGRAM, false, true, d0.clone()),
    ];
    assert_eq!(
        update_fee_recipient::process(&PROGRAM, &accounts, &NEW_RECIPIENT[..31], 5),
        Err(ProgramError::InvalidInstructionData)
    );
    assert_eq!(
        update_fee_recipient::process(&PROGRAM, &accounts[..1], &NEW_RECIPIENT, 5),
        Err(ProgramError::NotEnoughAccountKeys)
    );
    let foreign = vec![
        account(AUTHORITY, [0; 32], true, false, vec![]),
        account(FEE_CONFIG, [6; 32], false, true, d0.clone()),
    ];
    assert_eq!(
        update_fee_recipient::process(&PROGRAM, &foreign, &NEW_RECIPIENT, 5),
        Err(ProgramError::IllegalOwner)
    );
    let read_only = vec![
        account(AUTHORITY, [0; 32], true, false, vec![]),
        account(FEE_CONFIG, PROGRAM, false, false, d0),
    ];
    assert_eq!(
        update_fee_recipient::process(&PROGRAM, &read_only, &NEW_RECIPIENT, 5),
        Err(ProgramError::InvalidAccountData)
    );

    let init_accounts = vec![
        account([5; 32], [0; 32], false, true, vec![]),
        account(FEE_CONFIG, [0; 32], false, true, vec![]),
        account([0; 32], [0; 32], false, false, vec![]),
    ];
    assert!(matches!(
        init_fee_config::process(&PROGRAM, &init_accounts, &[0u8; 63]),
        Err(ProgramError::InvalidInstructionData)
    ));
    assert!(matches!(
        init_fee_config::process(&PROGRAM, &init_accounts[..2], &[0u8; 64]),
        Err(ProgramError::NotEnoughAccountKeys)
    ));
    assert!(matches!(
        init_fee_config::process(&PROGRAM, &init_accounts, &[0u8; 64]),
        Err(ProgramError::MissingRequiredSignature)
    ));
}

#[test]
fn init_fee_config_checks() {
    let mut data = AUTHORITY.to_vec();
    data.extend_from_slice(&RECIPIENT);
    let accounts = vec![
        account([5; 32], [0; 32], true, true, vec![]),
        account(FEE_CONFIG, [0; 32], false, true, vec![]),
        account([0; 32], [0; 32], false, false, vec![]),
    ];
    let plan = init_fee_config::process_with_fee_config_address(&accounts, &data, &FEE_CONFIG, 254).unwrap();
    assert_eq!(plan.bump, 254);
    assert_eq!(plan.data, initial_fee_config_data(&AUTHORITY, &RECIPIENT));

    assert!(matches!(
        init_fee_config::process_with_fee_config_address(&accounts, &data[..63], &FEE_CONFIG, 254),
        Err(ProgramError::InvalidInstructionData)
    ));
    assert!(matches!(
        init_fee_config::process_with_fee_config_address(&accounts[..2], &data, &FEE_CONFIG, 254),
        Err(ProgramError::NotEnoughAccountKeys)
    ));
    assert!(matches!(
        init_fee_config::process_with_fee_config_address(&accounts, &data, &[4; 32], 254),
        Err(ProgramError::InvalidSeeds)
    ));
    let initialized = vec![
        account([5; 32], [0; 32], true, true, vec![]),
        account(FEE_CONFIG, PROGRAM, false, true, initial_fee_config_data(&AUTHORITY, &RECIPIENT)),
        account([0; 32], [0; 32], false, false, vec![]),
    ];
    assert!(matches!(
        init_fee_config::process_with_fee_config_address(&initialized, &data, &FEE_CONFIG, 254),
        Err(ProgramError::AccountAlreadyInitialized)
    ));
    let unsigned = vec![
        account([5; 32], [0; 32], false, true, vec![]),
        account(FEE_CONFIG, [0; 32], false, true, vec![]),
        account([0; 32], [0; 32], false, false, vec![]),
    ];
    assert!(matches!(
        init_fee_config::process_with_fee_config_address(&unsigned, &data, &FEE_CONFIG, 254),
        Err(ProgramError::MissingRequiredSignature)
    ));
}
