use wallet_program::state::session::SessionAccount;

fn session(max_amount: u64, spent_amount: u64) -> SessionAccount {
    SessionAccount {
        discriminator: 3,
        bump: 255,
        version: 3,
        flags: 0,
        _reserved: [0; 4],
        wallet: [1; 32],
        session_key: [2; 32],
        expires_at: 1000,
        mint: [0; 32],
        max_amount,
        spent_amount,
    }
}

#[test]
fn revoked_and_native_flags() {
    let mut s = session(10, 0);
    assert!(!s.is_revoked());
    assert!(s.is_native_sol());
    s.flags = 0x03;
    assert!(s.is_revoked());
    s.mint[31] = 1;
    assert!(!s.is_native_sol());
}

#[test]
fn remaining_saturates() {
    assert_eq!(session(100, 30).remaining(), 70);
    assert_eq!(session(100, 130).remaining(), 0);
}

#[test]
fn limit_checks() {
    let s = session(100, 30);
    assert!(!s.would_exceed_limit(70));
    assert!(s.would_exceed_limit(71));
    // Saturation at u64::MAX never exceeds a limit of u64::MAX.
    assert!(!session(u64::MAX, 1).would_exceed_limit(u64::MAX));
}

#[test]
fn record_spending_within_and_beyond_limit() {
    let mut s = session(100, 30);
    assert!(s.record_spending(50));
    assert_eq!(s.spent_amount, 80);
    assert_eq!(s.remaining(), 20);
    assert!(!s.record_spending(21));
    assert_eq!(s.spent_amount, 80);
    assert!(s.record_spending(20));
    assert_eq!(s.remaining(), 0);
    assert!(s.record_spending(0));
}

fn session_bytes() -> Vec<u8> {
    let mut d = vec![3u8, 254, 3, 1, 9, 9, 9, 9];
    d.extend_from_slice(&[0xAA; 32]);
    d.extend_from_slice(&[0xBB; 32]);
    d.extend_from_slice(&500u64.to_le_bytes());
    d.extend_from_slice(&[0xCC; 32]);
    d.extend_from_slice(&1_000u64.to_le_bytes());
    d.extend_from_slice(&250u64.to_le_bytes());
    d
}

#[test]
fn session_layout_v3() {
    let d = session_bytes();
    assert_eq!(d.len(), SessionAccount::SIZE);
    let s = SessionAccount::from_bytes(&d);
    assert_eq!(s.discriminator, 3);
    assert_eq!(s.bump, 254);
    assert_eq!(s.version, 3);
    assert!(s.is_revoked());
    assert_eq!(s._reserved, [9; 4]);
    assert_eq!(s.wallet, [0xAA; 32]);
    assert_eq!(s.session_key, [0xBB; 32]);
    assert_eq!(s.expires_at, 500);
    assert_eq!(s.mint, [0xCC; 32]);
    assert_eq!(s.max_amount, 1_000);
    assert_eq!(s.spent_amount, 250);
}

#[test]
fn session_layout_legacy() {
    let d = session_bytes();
    let s = SessionAccount::from_bytes(&d[..SessionAccount::LEGACY_SIZE]);
    assert_eq!(s.wallet, [0xAA; 32]);
    assert_eq!(s.session_key, [0xBB; 32]);
    assert_eq!(s.expires_at, 500);
    assert_eq!(s.mint, [0; 32]);
    assert_eq!(s.max_amount, 0);
    assert_eq!(s.spent_amount, 0);
}
