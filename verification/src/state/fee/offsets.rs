//! FeeConfig layout offsets.

use vstd::prelude::*;

verus! {

pub const DISCRIMINATOR: usize = 0;

/// 1..33
pub const AUTHORITY: usize = 1;

/// 33..65
pub const RECIPIENT: usize = 33;

/// 65..97
pub const PENDING_AUTHORITY: usize = 65;

/// 97..105
pub const PENDING_AUTHORITY_VALID_AT: usize = 97;

} // verus!
