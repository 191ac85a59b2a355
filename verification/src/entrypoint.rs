//! Routing of the program's instructions by their first byte.

use vstd::prelude::*;

use crate::error::ProgramError;

verus! {

/// The program's instructions, by discriminator.
#[derive(Clone, Copy, Debug, PartialEq, Eq, Structural)]
pub enum Instruction {
    /// 0
    CreateWallet,
    /// 1
    AddAuthority,
    /// 2
    RemoveAuthority,
    /// 3
    TransferOwnership,
    /// 4
    Execute,
    /// 5
    CreateSession,
    /// 6
    InitFeeConfig,
    /// 7
    UpdateFeeRecipient,
}

/// The instruction that a discriminator byte selects.
pub open spec fn instruction_of(discriminator: u8) -> Option<Instruction> {
    if discriminator == 0 {
        Some(Instruction::CreateWallet)
    } else if discriminator == 1 {
        Some(Instruction::AddAuthority)
    } else if discriminator == 2 {
        Some(Instruction::RemoveAuthority)
    } else if discriminator == 3 {
        Some(Instruction::TransferOwnership)
    } else if discriminator == 4 {
        Some(Instruction::Execute)
    } else if discriminator == 5 {
        Some(Instruction::CreateSession)
    } else if discriminator == 6 {
        Some(Instruction::InitFeeConfig)
    } else if discriminator == 7 {
        Some(Instruction::UpdateFeeRecipient)
    } else {
        None
    }
}

/// Splits instruction data into the instruction it selects and the instruction's own
/// data; `InvalidInstructionData` for empty data or an unknown discriminator.
pub fn decode_instruction(instruction_data: &[u8]) -> (r: Result<(Instruction, &[u8]), ProgramError>)
    ensures
        match r {
            Ok((ix, data)) => instruction_data@.len() > 0 && instruction_of(instruction_data@[0]) == Some(ix)
                && data@ == instruction_data@.skip(1),
            Err(e) => e == ProgramError::InvalidInstructionData && (instruction_data@.len() == 0
                || instruction_of(instruction_data@[0]) is None),
        },
{
    if instruction_data.len() == 0 {
        return Err(ProgramError::InvalidInstructionData);
    }
    let discriminator = instruction_data[0];
    let data = vstd::slice::slice_subrange(instruction_data, 1, instruction_data.len());
    let ix = if discriminator == 0 {
        Instruction::CreateWallet
    } else if discriminator == 1 {
        Instruction::AddAuthority
    } else if discriminator == 2 {
        Instruction::RemoveAuthority
    } else if discriminator == 3 {
        Instruction::TransferOwnership
    } else if discriminator == 4 {
        Instruction::Execute
    } else if discriminator == 5 {
        Instruction::CreateSession
    } else if discriminator == 6 {
        Instruction::InitFeeConfig
    } else if discriminator == 7 {
        Instruction::UpdateFeeRecipient
    } else {
        return Err(ProgramError::InvalidInstructionData);
    };
    Ok((ix, data))
}

/// The instruction table, over every discriminator byte: 0 CreateWallet, 1 AddAuthority,
/// 2 RemoveAuthority, 3 TransferOwnership, 4 Execute, 5 CreateSession, 6 InitFeeConfig,
/// 7 UpdateFeeRecipient; every other byte selects none. Distinct bytes select distinct
/// instructions.
pub proof fn lemma_instruction_table(d: u8, e: u8)
    ensures
        instruction_of(0) == Some(Instruction::CreateWallet),
        instruction_of(1) == Some(Instruction::AddAuthority),
        instruction_of(2) == Some(Instruction::RemoveAuthority),
        instruction_of(3) == Some(Instruction::TransferOwnership),
        instruction_of(4) == Some(Instruction::Execute),
        instruction_of(5) == Some(Instruction::CreateSession),
        instruction_of(6) == Some(Instruction::InitFeeConfig),
        instruction_of(7) == Some(Instruction::UpdateFeeRecipient),
        instruction_of(d) is Some <==> d <= 7,
        instruction_of(d) is Some && instruction_of(d) == instruction_of(e) ==> d == e,
{
}

} // verus!
