//! What an instruction reads of the accounts passed to it.

use vstd::prelude::*;

use crate::pubkey::Pubkey;

verus! {

/// The plain values of an account passed to an instruction: its address, owner,
/// signer and writable flags, balance and data.
#[derive(Debug)]
pub struct AccountView {
    pub key: Pubkey,
    pub owner: Pubkey,
    pub is_signer: bool,
    pub is_writable: bool,
    pub lamports: u64,
    pub data: Vec<u8>,
}

} // verus!
