//! Account addresses and program-derived addresses.

use vstd::prelude::*;

verus! {

/// The address of a Solana account.
pub type Pubkey = [u8; 32];

/// The program-derived address and bump seed that the Solana runtime finds for
/// `seeds` under `program_id` (the first bump seed, counting down from 255, whose
/// address is off the ed25519 curve).
pub uninterp spec fn found_program_address(seeds: Seq<Seq<u8>>, program_id: Seq<u8>) -> (Seq<u8>, u8);

/// Calls `pinocchio::pubkey::try_find_program_address`. On the Solana runtime it
/// returns the program-derived address of `seeds` under `program_id` with its bump
/// seed, or `None` when no bump seed gives one; on any other target it returns `None`.
/// The contract states only that a returned address is the one that the runtime finds.
#[verifier::external_body]
pub(crate) fn try_find_program_address(seeds: &[&[u8]], program_id: &Pubkey) -> (r: Option<(Pubkey, u8)>)
    ensures
        r matches Some((address, bump)) ==> (address@, bump) == found_program_address(
            seeds.deep_view(),
            program_id@,
        ),
{
    pinocchio::pubkey::try_find_program_address(seeds, program_id)
}

/// The all-zero key: no pending value, the native SOL mint, the System Program.
pub open spec fn zero_pubkey() -> Seq<u8> {
    Seq::new(32, |i: int| 0u8)
}

/// The all-zero key.
pub fn zero_key() -> (k: Pubkey)
    ensures
        k@ == zero_pubkey(),
{
    let k = [0u8; 32];
    assert(k@ =~= zero_pubkey());
    k
}

/// Byte-wise equality of two addresses.
pub fn pubkey_eq(a: &Pubkey, b: &Pubkey) -> (r: bool)
    ensures
        r == (a@ == b@),
{
    let mut i: usize = 0;
    while i < 32
        invariant
            i <= 32,
            forall|k: int| 0 <= k < i ==> a@[k] == b@[k],
        decreases 32 - i,
    {
        if a[i] != b[i] {
            return false;
        }
        i = i + 1;
    }
    assert(a@ =~= b@);
    true
}

} // verus!
