//! On-chain account state of the program.

pub mod authority;
pub mod fee;
pub mod session;
