//! The decisions of the program's instructions.

pub mod update_fee_recipient;
pub mod init_fee_config;
pub mod execute;
