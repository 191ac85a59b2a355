//! Ephemeral session accounts (V3, with spending limits).

use vstd::prelude::*;

use crate::bytes::{read_array32, read_u64_le, u64_le_at};
use crate::pubkey::{zero_key, zero_pubkey};

verus! {

/// Current session account version (V3 with spending limits).
pub const CURRENT_SESSION_VERSION: u8 = 3;

/// Ephemeral Session Account V3.
///
/// Represents a temporary delegated authority with an expiration time and spending
/// limits. Its on-chain layout (128 bytes, little-endian):
/// `[0]` discriminator, `[1]` bump, `[2]` version, `[3]` flags, `[4..8]` reserved,
/// `[8..40]` wallet, `[40..72]` session key, `[72..80]` expires_at,
/// `[80..112]` mint, `[112..120]` max_amount, `[120..128]` spent_amount.
#[derive(Clone, Copy, Debug)]
pub struct SessionAccount {
    /// Account discriminator (must be `3` for Session).
    pub discriminator: u8,
    /// Bump seed for this PDA.
    pub bump: u8,
    /// Account Version (3 for V3).
    pub version: u8,
    /// Flags (bit 0: revoked).
    pub flags: u8,
    /// Reserved for future use.
    pub _reserved: [u8; 4],
    /// The wallet this session belongs to.
    pub wallet: [u8; 32],
    /// The ephemeral public key authorized to sign.
    pub session_key: [u8; 32],
    /// Absolute slot height when this session expires.
    pub expires_at: u64,
    /// Allowed token mint (all zeros = native SOL).
    pub mint: [u8; 32],
    /// Maximum spendable amount.
    pub max_amount: u64,
    /// Cumulative spent amount.
    pub spent_amount: u64,
}

/// Offset of `spent_amount` in the account data.
pub const SPENT_AMOUNT_OFFSET: usize = 120;

/// `a + b`, saturated at `u64::MAX`.
pub open spec fn saturating_add(a: u64, b: u64) -> u64 {
    if a + b > u64::MAX {
        u64::MAX
    } else {
        (a + b) as u64
    }
}

/// `a - b`, saturated at 0.
pub open spec fn saturating_sub(a: u64, b: u64) -> u64 {
    if a >= b {
        (a - b) as u64
    } else {
        0
    }
}

/// The session account that the data holds. Legacy data (shorter than a V3 account)
/// holds no mint and no limits: they read as zero.
pub open spec fn session_from_bytes(data: Seq<u8>) -> SessionAccount {
    let is_v3 = data.len() >= SessionAccount::SIZE;
    SessionAccount {
        discriminator: data[0],
        bump: data[1],
        version: data[2],
        flags: data[3],
        _reserved: [data[4], data[5], data[6], data[7]],
        wallet: choose|w: [u8; 32]| w@ == data.subrange(8, 40),
        session_key: choose|w: [u8; 32]| w@ == data.subrange(40, 72),
        expires_at: u64_le_at(data, 72),
        mint: choose|w: [u8; 32]|
            w@ == if is_v3 {
                data.subrange(80, 112)
            } else {
                zero_pubkey()
            },
        max_amount: if is_v3 { u64_le_at(data, 112) } else { 0 },
        spent_amount: if is_v3 { u64_le_at(data, 120) } else { 0 },
    }
}

impl SessionAccount {
    /// Size of V3 session account in bytes.
    pub const SIZE: usize = 128;

    /// Size of legacy session account (V1/V2).
    pub const LEGACY_SIZE: usize = 80;

    pub open spec fn spec_is_revoked(&self) -> bool {
        self.flags & 0x01u8 != 0
    }

    pub open spec fn spec_is_native_sol(&self) -> bool {
        self.mint@ == zero_pubkey()
    }

    pub open spec fn spec_remaining(&self) -> u64 {
        saturating_sub(self.max_amount, self.spent_amount)
    }

    pub open spec fn spec_would_exceed_limit(&self, amount: u64) -> bool {
        saturating_add(self.spent_amount, amount) > self.max_amount
    }

    /// Check if this session has been revoked.
    pub fn is_revoked(&self) -> (r: bool)
        ensures
            r == self.spec_is_revoked(),
    {
        self.flags & 0x01 != 0
    }

    /// Check if this session tracks native SOL.
    pub fn is_native_sol(&self) -> (r: bool)
        ensures
            r == self.spec_is_native_sol(),
    {
        let mut i: usize = 0;
        while i < 32
            invariant
                i <= 32,
                forall|k: int| 0 <= k < i ==> self.mint@[k] == 0u8,
            decreases 32 - i,
        {
            if self.mint[i] != 0 {
                assert(self.mint@[i as int] != zero_pubkey()[i as int]);
                return false;
            }
            i = i + 1;
        }
        assert(self.mint@ =~= zero_pubkey());
        true
    }

    /// Calculate remaining spendable amount.
    pub fn remaining(&self) -> (r: u64)
        ensures
            r == self.spec_remaining(),
    {
        self.max_amount.saturating_sub(self.spent_amount)
    }

    /// Check if spending `amount` would exceed the limit.
    pub fn would_exceed_limit(&self, amount: u64) -> (r: bool)
        ensures
            r == self.spec_would_exceed_limit(amount),
    {
        self.spent_amount.saturating_add(amount) > self.max_amount
    }

    /// Record spending and return true if successful, false if limit exceeded.
    pub fn record_spending(&mut self, amount: u64) -> (r: bool)
        ensures
            r == !old(self).spec_would_exceed_limit(amount),
            r ==> *final(self) == (SessionAccount {
                spent_amount: saturating_add(old(self).spent_amount, amount),
                ..*old(self)
            }),
            !r ==> *final(self) == *old(self),
            r ==> final(self).spent_amount <= final(self).max_amount,
            r ==> final(self).spec_remaining() == saturating_sub(old(self).spec_remaining(), amount),
    {
        if self.would_exceed_limit(amount) {
            false
        } else {
            self.spent_amount = self.spent_amount.saturating_add(amount);
            true
        }
    }

    /// Reads a session account from account data. A legacy account is 80 bytes long:
    /// the fields that it does not hold (mint, limits) read as zero.
    pub fn from_bytes(data: &[u8]) -> (s: SessionAccount)
        requires
            data@.len() >= SessionAccount::LEGACY_SIZE,
        ensures
            s == session_from_bytes(data@),
    {
        let len = data.len();
        let is_v3 = len >= SessionAccount::SIZE;
        let s = SessionAccount {
            discriminator: data[0],
            bump: data[1],
            version: data[2],
            flags: data[3],
            _reserved: [data[4], data[5], data[6], data[7]],
            wallet: read_array32(data, 8),
            session_key: read_array32(data, 40),
            expires_at: read_u64_le(data, 72),
            mint: if is_v3 { read_array32(data, 80) } else { zero_key() },
            max_amount: if is_v3 { read_u64_le(data, 112) } else { 0 },
            spent_amount: if is_v3 { read_u64_le(data, 120) } else { 0 },
        };
        proof {
            let t = session_from_bytes(data@);
            let m = if is_v3 { data@.subrange(80, 112) } else { zero_pubkey() };
            assert(s.mint@ == m);
            assert(t.wallet@ == data@.subrange(8, 40));
            assert(t.session_key@ == data@.subrange(40, 72));
            assert(t.mint@ == m);
            assert(s.wallet == t.wallet);
            assert(s.session_key == t.session_key);
            assert(s.mint == t.mint);
            assert(s._reserved =~= t._reserved);
        }
        s
    }
}

/// Spending is allowed exactly when the amount is within what remains, for a session
/// that has not overspent.
pub proof fn lemma_within_limit_iff_remaining(s: SessionAccount, amount: u64)
    requires
        s.spent_amount <= s.max_amount,
        s.spent_amount + amount <= u64::MAX,
    ensures
        !s.spec_would_exceed_limit(amount) <==> amount <= s.spec_remaining(),
{
}

} // verus!
