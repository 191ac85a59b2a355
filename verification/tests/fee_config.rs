use wallet_program::error::ProgramError;
use wallet_program::processor::init_fee_config::parse_fee_config_keys;
use wallet_program::state::fee::TIMELOCK_SLOTS;

#[test]
fn test_instruction_data_parsing() {
    let authority = [1u8; 32];
    let recipient = [2u8; 32];

    let mut data = Vec::with_capacity(64);
    data.extend_from_slice(&authority);
    data.extend_from_slice(&recipient);

    // Verify we can parse correctly
    assert_eq!(data.len(), 64);
    assert_eq!(&data[0..32], &authority);
    assert_eq!(&data[32..64], &recipient);
    assert_eq!(parse_fee_config_keys(&data), Ok((authority, recipient)));
}

#[test]
fn test_instruction_data_too_short() {
    let data = vec![0u8; 63]; // Need 64
    assert!(data.len() < 64);
    assert_eq!(parse_fee_config_keys(&data), Err(ProgramError::InvalidInstructionData));
}

#[test]
fn test_timelock_slots_is_24h() {
    // 400ms per slot, 216_000 slots = 86_400 seconds = 24 hours
    let seconds = TIMELOCK_SLOTS * 400 / 1000;
    assert_eq!(seconds, 86_400);
}
