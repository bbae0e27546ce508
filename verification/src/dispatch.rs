//! Instruction decoding: each program reads a tag byte and hands the rest of the data to
//! the instruction it names.
use vstd::prelude::*;
use crate::runtime::ProgramFailure;
use crate::falcon_auth::{FalconAuthError, fail};
use crate::vault::{FalconVaultError, vfail};
use crate::consumer::{ExampleConsumerError, cfail};
use crate::registry::{PqMigrationRegistryError, rfail};
use crate::quorum::state::{PqQuorumAuthError, qfail};
use crate::smart_account::state::{PqSmartAccountError, sfail};

verus! {

/// The instructions of the Falcon key program.
#[derive(Clone, Copy, PartialEq, Eq, Structural, Debug)]
pub enum FalconAuthInstruction {
    RegisterKey,
    VerifyAction,
    RotateKey,
    CloseKey,
    WriteKeyChunk,
    FinalizeKey,
}

/// The instruction a tag byte names in the Falcon key program.
pub open spec fn falcon_auth_instruction(tag: u8) -> Option<FalconAuthInstruction> {
    match tag {
        0u8 => Some(FalconAuthInstruction::RegisterKey),
        1u8 => Some(FalconAuthInstruction::VerifyAction),
        2u8 => Some(FalconAuthInstruction::RotateKey),
        3u8 => Some(FalconAuthInstruction::CloseKey),
        4u8 => Some(FalconAuthInstruction::WriteKeyChunk),
        5u8 => Some(FalconAuthInstruction::FinalizeKey),
        _ => None,
    }
}

/// Reads the tag byte of an instruction of the Falcon key program: an empty instruction or an unknown
/// tag is invalid instruction data.
pub fn decode_falcon_auth_instruction(data: &[u8]) -> (res: Result<FalconAuthInstruction, ProgramFailure>)
    ensures
        match res {
            Ok(i) => data@.len() > 0 && falcon_auth_instruction(data@[0]) == Some(i),
            Err(e) => (data@.len() == 0 || falcon_auth_instruction(data@[0]) is None) && e == fail(FalconAuthError::InvalidInstructionData),
        },
{
    if data.len() == 0 {
        return Err(FalconAuthError::InvalidInstructionData.into_failure());
    }
    match data[0] {
        0 => Ok(FalconAuthInstruction::RegisterKey),
        1 => Ok(FalconAuthInstruction::VerifyAction),
        2 => Ok(FalconAuthInstruction::RotateKey),
        3 => Ok(FalconAuthInstruction::CloseKey),
        4 => Ok(FalconAuthInstruction::WriteKeyChunk),
        5 => Ok(FalconAuthInstruction::FinalizeKey),
        _ => Err(FalconAuthError::InvalidInstructionData.into_failure()),
    }
}

/// The instructions of the vault program.
#[derive(Clone, Copy, PartialEq, Eq, Structural, Debug)]
pub enum VaultInstruction {
    InitVault,
    Deposit,
    WithdrawWithFalcon,
}

/// The instruction a tag byte names in the vault program.
pub open spec fn vault_instruction(tag: u8) -> Option<VaultInstruction> {
    match tag {
        0u8 => Some(VaultInstruction::InitVault),
        1u8 => Some(VaultInstruction::Deposit),
        2u8 => Some(VaultInstruction::WithdrawWithFalcon),
        _ => None,
    }
}

/// Reads the tag byte of an instruction of the vault program: an empty instruction or an unknown
/// tag is invalid instruction data.
pub fn decode_vault_instruction(data: &[u8]) -> (res: Result<VaultInstruction, ProgramFailure>)
    ensures
        match res {
            Ok(i) => data@.len() > 0 && vault_instruction(data@[0]) == Some(i),
            Err(e) => (data@.len() == 0 || vault_instruction(data@[0]) is None) && e == vfail(FalconVaultError::InvalidInstructionData),
        },
{
    if data.len() == 0 {
        return Err(FalconVaultError::InvalidInstructionData.into_failure());
    }
    match data[0] {
        0 => Ok(VaultInstruction::InitVault),
        1 => Ok(VaultInstruction::Deposit),
        2 => Ok(VaultInstruction::WithdrawWithFalcon),
        _ => Err(FalconVaultError::InvalidInstructionData.into_failure()),
    }
}

/// The instructions of the example consumer program.
#[derive(Clone, Copy, PartialEq, Eq, Structural, Debug)]
pub enum ConsumerInstruction {
    InitCounter,
    IncrementWithFalcon,
}

/// The instruction a tag byte names in the example consumer program.
pub open spec fn consumer_instruction(tag: u8) -> Option<ConsumerInstruction> {
    match tag {
        0u8 => Some(ConsumerInstruction::InitCounter),
        1u8 => Some(ConsumerInstruction::IncrementWithFalcon),
        _ => None,
    }
}

/// Reads the tag byte of an instruction of the example consumer program: an empty instruction or an unknown
/// tag is invalid instruction data.
pub fn decode_consumer_instruction(data: &[u8]) -> (res: Result<ConsumerInstruction, ProgramFailure>)
    ensures
        match res {
            Ok(i) => data@.len() > 0 && consumer_instruction(data@[0]) == Some(i),
            Err(e) => (data@.len() == 0 || consumer_instruction(data@[0]) is None) && e == cfail(ExampleConsumerError::InvalidInstructionData),
        },
{
    if data.len() == 0 {
        return Err(ExampleConsumerError::InvalidInstructionData.into_failure());
    }
    match data[0] {
        0 => Ok(ConsumerInstruction::InitCounter),
        1 => Ok(ConsumerInstruction::IncrementWithFalcon),
        _ => Err(ExampleConsumerError::InvalidInstructionData.into_failure()),
    }
}

/// The instructions of the migration registry program.
#[derive(Clone, Copy, PartialEq, Eq, Structural, Debug)]
pub enum RegistryInstruction {
    Bind,
}

/// The instruction a tag byte names in the migration registry program.
pub open spec fn registry_instruction(tag: u8) -> Option<RegistryInstruction> {
    match tag {
        0u8 => Some(RegistryInstruction::Bind),
        _ => None,
    }
}

/// Reads the tag byte of an instruction of the migration registry program: an empty instruction or an unknown
/// tag is invalid instruction data.
pub fn decode_registry_instruction(data: &[u8]) -> (res: Result<RegistryInstruction, ProgramFailure>)
    ensures
        match res {
            Ok(i) => data@.len() > 0 && registry_instruction(data@[0]) == Some(i),
            Err(e) => (data@.len() == 0 || registry_instruction(data@[0]) is None) && e == rfail(PqMigrationRegistryError::InvalidInstructionData),
        },
{
    if data.len() == 0 {
        return Err(PqMigrationRegistryError::InvalidInstructionData.into_failure());
    }
    match data[0] {
        0 => Ok(RegistryInstruction::Bind),
        _ => Err(PqMigrationRegistryError::InvalidInstructionData.into_failure()),
    }
}

/// The instructions of the quorum program.
#[derive(Clone, Copy, PartialEq, Eq, Structural, Debug)]
pub enum QuorumInstruction {
    RegisterQuorum,
    VerifyFalconWinternitz,
    InitWinternitzSignature,
    WriteWinternitzSignatureChunk,
    InitMldsaPublicKey,
    WriteMldsaPublicKeyChunk,
    InitMldsaSignature,
    WriteMldsaSignatureChunk,
    FinalizeMldsaPublicKey,
    InitMldsaProof,
    ProveMldsaColumn,
    VerifyFalconMldsaProof,
    VerifyWinternitzMldsaProof,
    PrepareMldsaProof,
    FinalizeMldsaRow,
    PrepareMldsaZColumn,
}

/// The instruction a tag byte names in the quorum program.
pub open spec fn quorum_instruction(tag: u8) -> Option<QuorumInstruction> {
    match tag {
        0u8 => Some(QuorumInstruction::RegisterQuorum),
        1u8 => Some(QuorumInstruction::VerifyFalconWinternitz),
        3u8 => Some(QuorumInstruction::InitWinternitzSignature),
        4u8 => Some(QuorumInstruction::WriteWinternitzSignatureChunk),
        5u8 => Some(QuorumInstruction::InitMldsaPublicKey),
        6u8 => Some(QuorumInstruction::WriteMldsaPublicKeyChunk),
        7u8 => Some(QuorumInstruction::InitMldsaSignature),
        8u8 => Some(QuorumInstruction::WriteMldsaSignatureChunk),
        11u8 => Some(QuorumInstruction::FinalizeMldsaPublicKey),
        12u8 => Some(QuorumInstruction::InitMldsaProof),
        13u8 => Some(QuorumInstruction::ProveMldsaColumn),
        14u8 => Some(QuorumInstruction::VerifyFalconMldsaProof),
        15u8 => Some(QuorumInstruction::VerifyWinternitzMldsaProof),
        16u8 => Some(QuorumInstruction::PrepareMldsaProof),
        17u8 => Some(QuorumInstruction::FinalizeMldsaRow),
        18u8 => Some(QuorumInstruction::PrepareMldsaZColumn),
        _ => None,
    }
}

/// Reads the tag byte of an instruction of the quorum program: an empty instruction or an unknown
/// tag is invalid instruction data, and tag 2 names a scheme the program refuses.
pub fn decode_quorum_instruction(data: &[u8]) -> (res: Result<QuorumInstruction, ProgramFailure>)
    ensures
        match res {
            Ok(i) => data@.len() > 0 && quorum_instruction(data@[0]) == Some(i),
            Err(e) => if data@.len() > 0 && data@[0] == 2 { e == qfail(PqQuorumAuthError::UnsupportedScheme) } else {
                (data@.len() == 0 || quorum_instruction(data@[0]) is None) && e == qfail(PqQuorumAuthError::InvalidInstructionData)
            },
        },
{
    if data.len() == 0 {
        return Err(PqQuorumAuthError::InvalidInstructionData.into_failure());
    }
    match data[0] {
        0 => Ok(QuorumInstruction::RegisterQuorum),
        1 => Ok(QuorumInstruction::VerifyFalconWinternitz),
        3 => Ok(QuorumInstruction::InitWinternitzSignature),
        4 => Ok(QuorumInstruction::WriteWinternitzSignatureChunk),
        5 => Ok(QuorumInstruction::InitMldsaPublicKey),
        6 => Ok(QuorumInstruction::WriteMldsaPublicKeyChunk),
        7 => Ok(QuorumInstruction::InitMldsaSignature),
        8 => Ok(QuorumInstruction::WriteMldsaSignatureChunk),
        11 => Ok(QuorumInstruction::FinalizeMldsaPublicKey),
        12 => Ok(QuorumInstruction::InitMldsaProof),
        13 => Ok(QuorumInstruction::ProveMldsaColumn),
        14 => Ok(QuorumInstruction::VerifyFalconMldsaProof),
        15 => Ok(QuorumInstruction::VerifyWinternitzMldsaProof),
        16 => Ok(QuorumInstruction::PrepareMldsaProof),
        17 => Ok(QuorumInstruction::FinalizeMldsaRow),
        18 => Ok(QuorumInstruction::PrepareMldsaZColumn),
        2 => Err(PqQuorumAuthError::UnsupportedScheme.into_failure()),
        _ => Err(PqQuorumAuthError::InvalidInstructionData.into_failure()),
    }
}

/// The instructions of the smart account program.
#[derive(Clone, Copy, PartialEq, Eq, Structural, Debug)]
pub enum SmartAccountInstruction {
    InitAccount,
    Deposit,
    TransferFalconWinternitz,
    TransferFalconMldsaProof,
    TransferWinternitzMldsaProof,
    InitFalconSignature,
    WriteFalconSignatureChunk,
    TransferFalconMldsaProofBuffered,
    TransferSplTokenFalconWinternitz,
    TransferSplTokenFalconWinternitzBuffered,
    TransferSplTokenFalconMldsaProofBuffered,
    TransferSplTokenWinternitzMldsaProof,
}

/// The instruction a tag byte names in the smart account program.
pub open spec fn smart_account_instruction(tag: u8) -> Option<SmartAccountInstruction> {
    match tag {
        0u8 => Some(SmartAccountInstruction::InitAccount),
        1u8 => Some(SmartAccountInstruction::Deposit),
        2u8 => Some(SmartAccountInstruction::TransferFalconWinternitz),
        3u8 => Some(SmartAccountInstruction::TransferFalconMldsaProof),
        4u8 => Some(SmartAccountInstruction::TransferWinternitzMldsaProof),
        5u8 => Some(SmartAccountInstruction::InitFalconSignature),
        6u8 => Some(SmartAccountInstruction::WriteFalconSignatureChunk),
        7u8 => Some(SmartAccountInstruction::TransferFalconMldsaProofBuffered),
        8u8 => Some(SmartAccountInstruction::TransferSplTokenFalconWinternitz),
        9u8 => Some(SmartAccountInstruction::TransferSplTokenFalconWinternitzBuffered),
        10u8 => Some(SmartAccountInstruction::TransferSplTokenFalconMldsaProofBuffered),
        11u8 => Some(SmartAccountInstruction::TransferSplTokenWinternitzMldsaProof),
        _ => None,
    }
}

/// Reads the tag byte of an instruction of the smart account program: an empty instruction or an unknown
/// tag is invalid instruction data.
pub fn decode_smart_account_instruction(data: &[u8]) -> (res: Result<SmartAccountInstruction, ProgramFailure>)
    ensures
        match res {
            Ok(i) => data@.len() > 0 && smart_account_instruction(data@[0]) == Some(i),
            Err(e) => (data@.len() == 0 || smart_account_instruction(data@[0]) is None) && e == sfail(PqSmartAccountError::InvalidInstructionData),
        },
{
    if data.len() == 0 {
        return Err(PqSmartAccountError::InvalidInstructionData.into_failure());
    }
    match data[0] {
        0 => Ok(SmartAccountInstruction::InitAccount),
        1 => Ok(SmartAccountInstruction::Deposit),
        2 => Ok(SmartAccountInstruction::TransferFalconWinternitz),
        3 => Ok(SmartAccountInstruction::TransferFalconMldsaProof),
        4 => Ok(SmartAccountInstruction::TransferWinternitzMldsaProof),
        5 => Ok(SmartAccountInstruction::InitFalconSignature),
        6 => Ok(SmartAccountInstruction::WriteFalconSignatureChunk),
        7 => Ok(SmartAccountInstruction::TransferFalconMldsaProofBuffered),
        8 => Ok(SmartAccountInstruction::TransferSplTokenFalconWinternitz),
        9 => Ok(SmartAccountInstruction::TransferSplTokenFalconWinternitzBuffered),
        10 => Ok(SmartAccountInstruction::TransferSplTokenFalconMldsaProofBuffered),
        11 => Ok(SmartAccountInstruction::TransferSplTokenWinternitzMldsaProof),
        _ => Err(PqSmartAccountError::InvalidInstructionData.into_failure()),
    }
}

} // verus!
