//! The smart account's other instructions: creating the account, depositing into it,
//! creating a Falcon signature buffer and writing a signature into it chunk by chunk.
use vstd::prelude::*;
use vstd::bytes::{spec_u16_from_le_bytes, spec_u16_to_le_bytes, spec_u64_from_le_bytes, u16_to_le_bytes, lemma_auto_spec_u16_to_from_le_bytes};
use crate::runtime::{AccountHeader, ProgramFailure, keys_eq, is_system_program, system_program_id, read_u64, read_u16, write_bytes, spliced};
use crate::quorum::state::keys_distinct;
use crate::quorum::approve::account_keys;
use crate::smart_account::state::{
    PqSmartAccountError, sfail, smart_pda_check, validate_smart_account_pda, smart_state_check, validate_smart_account_state,
    falcon_buffer_pda_check, validate_falcon_signature_buffer_pda, falcon_buffer_check, validate_falcon_signature_buffer_header,
    FALCON_SIGNATURE_LEN, SIGBUF_WRITTEN_OFFSET, SIGBUF_DATA_OFFSET,
};
use crate::smart_account::transfer::reject_duplicate_accounts;

verus! {

/// Outcome of `init_account` (accounts: authority, smart account, quorum program, quorum,
/// system program; data: the smart account's bump), given the smart account's current data.
pub open spec fn init_account_outcome(program_id: Seq<u8>, accounts: Seq<AccountHeader>, smart_data: Seq<u8>, data: Seq<u8>) -> Result<(), ProgramFailure> {
    if data.len() != 1 {
        Err(sfail(PqSmartAccountError::InvalidInstructionData))
    } else if accounts.len() < 5 {
        Err(ProgramFailure::NotEnoughAccountKeys)
    } else if !accounts[0].is_signer {
        Err(ProgramFailure::MissingRequiredSignature)
    } else if !accounts[0].is_writable || !accounts[1].is_writable {
        Err(ProgramFailure::InvalidAccountData)
    } else if !accounts[2].executable {
        Err(sfail(PqSmartAccountError::InvalidQuorumProgram))
    } else if accounts[3].owner@ != accounts[2].key@ {
        Err(sfail(PqSmartAccountError::InvalidAccountOwner))
    } else if accounts[4].key@ != system_program_id() {
        Err(ProgramFailure::IncorrectProgramId)
    } else if !keys_distinct(account_keys(accounts, 5)) {
        Err(ProgramFailure::InvalidArgument)
    } else {
        match smart_pda_check(program_id, accounts[0].key@, accounts[2].key@, accounts[3].key@, accounts[1].key@, data[0]) {
            Err(e) => Err(sfail(e)),
            Ok(_) => if accounts[1].owner@ != system_program_id() || smart_data.len() != 0 {
                Err(sfail(PqSmartAccountError::InvalidAccountData))
            } else {
                Ok(())
            },
        }
    }
}

/// Checks `init_account`; on success the runtime creates the account and the caller writes
/// it with `write_smart_account_state` and the bump returned here.
pub fn plan_init_account(program_id: &[u8; 32], accounts: &[AccountHeader], smart_data: &[u8], data: &[u8]) -> (res: Result<u8, ProgramFailure>)
    ensures
        res is Ok <==> init_account_outcome(program_id@, accounts@, smart_data@, data@) is Ok,
        res matches Err(e) ==> init_account_outcome(program_id@, accounts@, smart_data@, data@) == Err::<(), ProgramFailure>(e),
        res matches Ok(bump) ==> bump == data@[0],
{
    if data.len() != 1 {
        return Err(PqSmartAccountError::InvalidInstructionData.into_failure());
    }
    let bump = data[0];
    if accounts.len() < 5 {
        return Err(ProgramFailure::NotEnoughAccountKeys);
    }
    if !accounts[0].is_signer {
        return Err(ProgramFailure::MissingRequiredSignature);
    }
    if !accounts[0].is_writable || !accounts[1].is_writable {
        return Err(ProgramFailure::InvalidAccountData);
    }
    if !accounts[2].executable {
        return Err(PqSmartAccountError::InvalidQuorumProgram.into_failure());
    }
    if !keys_eq(&accounts[3].owner, &accounts[2].key) {
        return Err(PqSmartAccountError::InvalidAccountOwner.into_failure());
    }
    if !is_system_program(&accounts[4].key) {
        return Err(ProgramFailure::IncorrectProgramId);
    }
    match reject_duplicate_accounts(accounts, 5) {
        Err(e) => { return Err(e); },
        Ok(_) => {},
    }
    match validate_smart_account_pda(program_id, &accounts[0].key, &accounts[2].key, &accounts[3].key, &accounts[1].key, bump) {
        Err(e) => { return Err(e.into_failure()); },
        Ok(_) => {},
    }
    if !is_system_program(&accounts[1].owner) || smart_data.len() != 0 {
        return Err(PqSmartAccountError::InvalidAccountData.into_failure());
    }
    Ok(bump)
}

/// Outcome of `deposit` (accounts: depositor, smart account, system program; data: the
/// amount in lamports).
pub open spec fn deposit_outcome(program_id: Seq<u8>, accounts: Seq<AccountHeader>, smart_data: Seq<u8>, data: Seq<u8>) -> Result<u64, ProgramFailure> {
    if data.len() != 8 || spec_u64_from_le_bytes(data) == 0 {
        Err(sfail(PqSmartAccountError::InvalidInstructionData))
    } else if accounts.len() < 3 {
        Err(ProgramFailure::NotEnoughAccountKeys)
    } else if !accounts[0].is_signer {
        Err(ProgramFailure::MissingRequiredSignature)
    } else if !accounts[0].is_writable || !accounts[1].is_writable {
        Err(ProgramFailure::InvalidAccountData)
    } else if accounts[1].owner@ != program_id {
        Err(sfail(PqSmartAccountError::InvalidAccountOwner))
    } else if accounts[2].key@ != system_program_id() {
        Err(ProgramFailure::IncorrectProgramId)
    } else if accounts[0].key@ == accounts[1].key@ || accounts[1].key@ == accounts[2].key@ {
        Err(ProgramFailure::InvalidArgument)
    } else {
        match smart_state_check(program_id, accounts[1].key@, smart_data, None, None) {
            Err(e) => Err(sfail(e)),
            Ok(_) => Ok(spec_u64_from_le_bytes(data)),
        }
    }
}

/// Checks a deposit and returns the lamports the system program moves into the account.
pub fn plan_deposit(program_id: &[u8; 32], accounts: &[AccountHeader], smart_data: &[u8], data: &[u8]) -> (res: Result<u64, ProgramFailure>)
    ensures
        res == deposit_outcome(program_id@, accounts@, smart_data@, data@),
{
    if data.len() != 8 {
        return Err(PqSmartAccountError::InvalidInstructionData.into_failure());
    }
    let lamports = match read_u64(data, 0) { Some(v) => v, None => { return Err(PqSmartAccountError::InvalidInstructionData.into_failure()); } };
    proof {
        assert(data@.subrange(0, 8) =~= data@);
    }
    if lamports == 0 {
        return Err(PqSmartAccountError::InvalidInstructionData.into_failure());
    }
    if accounts.len() < 3 {
        return Err(ProgramFailure::NotEnoughAccountKeys);
    }
    if !accounts[0].is_signer {
        return Err(ProgramFailure::MissingRequiredSignature);
    }
    if !accounts[0].is_writable || !accounts[1].is_writable {
        return Err(ProgramFailure::InvalidAccountData);
    }
    if !keys_eq(&accounts[1].owner, program_id) {
        return Err(PqSmartAccountError::InvalidAccountOwner.into_failure());
    }
    if !is_system_program(&accounts[2].key) {
        return Err(ProgramFailure::IncorrectProgramId);
    }
    if keys_eq(&accounts[0].key, &accounts[1].key) || keys_eq(&accounts[1].key, &accounts[2].key) {
        return Err(ProgramFailure::InvalidArgument);
    }
    match validate_smart_account_state(program_id, &accounts[1].key, smart_data, None, None) {
        Err(e) => Err(e.into_failure()),
        Ok(_) => Ok(lamports),
    }
}

/// Outcome of `init_falcon_signature` (accounts: authority, smart account, quorum program,
/// quorum, signature buffer, system program; data: the buffer's bump and the quorum nonce).
pub open spec fn init_falcon_signature_outcome(program_id: Seq<u8>, accounts: Seq<AccountHeader>, smart_data: Seq<u8>, buffer_data: Seq<u8>,
    data: Seq<u8>) -> Result<(), ProgramFailure> {
    if data.len() != 9 {
        Err(sfail(PqSmartAccountError::InvalidInstructionData))
    } else if accounts.len() < 6 {
        Err(ProgramFailure::NotEnoughAccountKeys)
    } else if !accounts[0].is_signer {
        Err(ProgramFailure::MissingRequiredSignature)
    } else if !accounts[0].is_writable || !accounts[4].is_writable {
        Err(ProgramFailure::InvalidAccountData)
    } else if accounts[1].owner@ != program_id || accounts[3].owner@ != accounts[2].key@ {
        Err(sfail(PqSmartAccountError::InvalidAccountOwner))
    } else if !accounts[2].executable {
        Err(sfail(PqSmartAccountError::InvalidQuorumProgram))
    } else if accounts[5].key@ != system_program_id() {
        Err(ProgramFailure::IncorrectProgramId)
    } else if !keys_distinct(account_keys(accounts, 6)) {
        Err(ProgramFailure::InvalidArgument)
    } else {
        match smart_state_check(program_id, accounts[1].key@, smart_data, Some(accounts[0].key@), Some((accounts[2].key@, accounts[3].key@))) {
            Err(e) => Err(sfail(e)),
            Ok(_) => match falcon_buffer_pda_check(program_id, accounts[0].key@, accounts[1].key@, accounts[3].key@,
                spec_u64_from_le_bytes(data.subrange(1, 9)), accounts[4].key@, data[0]) {
                Err(e) => Err(sfail(e)),
                Ok(_) => if accounts[4].owner@ != system_program_id() || buffer_data.len() != 0 {
                    Err(sfail(PqSmartAccountError::InvalidAccountData))
                } else {
                    Ok(())
                },
            },
        }
    }
}

/// Checks `init_falcon_signature`; on success the runtime creates the buffer and the caller
/// writes it with `write_falcon_signature_buffer_header` and the bump and nonce returned.
pub fn plan_init_falcon_signature(program_id: &[u8; 32], accounts: &[AccountHeader], smart_data: &[u8], buffer_data: &[u8], data: &[u8])
    -> (res: Result<(u8, u64), ProgramFailure>)
    ensures
        res is Ok <==> init_falcon_signature_outcome(program_id@, accounts@, smart_data@, buffer_data@, data@) is Ok,
        res matches Err(e) ==> init_falcon_signature_outcome(program_id@, accounts@, smart_data@, buffer_data@, data@) == Err::<(), ProgramFailure>(e),
        res matches Ok((bump, nonce)) ==> bump == data@[0] && nonce == spec_u64_from_le_bytes(data@.subrange(1, 9)),
{
    if data.len() != 9 {
        return Err(PqSmartAccountError::InvalidInstructionData.into_failure());
    }
    let bump = data[0];
    let nonce = match read_u64(data, 1) { Some(v) => v, None => { return Err(PqSmartAccountError::InvalidInstructionData.into_failure()); } };
    if accounts.len() < 6 {
        return Err(ProgramFailure::NotEnoughAccountKeys);
    }
    if !accounts[0].is_signer {
        return Err(ProgramFailure::MissingRequiredSignature);
    }
    if !accounts[0].is_writable || !accounts[4].is_writable {
        return Err(ProgramFailure::InvalidAccountData);
    }
    if !keys_eq(&accounts[1].owner, program_id) || !keys_eq(&accounts[3].owner, &accounts[2].key) {
        return Err(PqSmartAccountError::InvalidAccountOwner.into_failure());
    }
    if !accounts[2].executable {
        return Err(PqSmartAccountError::InvalidQuorumProgram.into_failure());
    }
    if !is_system_program(&accounts[5].key) {
        return Err(ProgramFailure::IncorrectProgramId);
    }
    match reject_duplicate_accounts(accounts, 6) {
        Err(e) => { return Err(e); },
        Ok(_) => {},
    }
    match validate_smart_account_state(program_id, &accounts[1].key, smart_data, Some(&accounts[0].key), Some((&accounts[2].key, &accounts[3].key))) {
        Err(e) => { return Err(e.into_failure()); },
        Ok(_) => {},
    }
    match validate_falcon_signature_buffer_pda(program_id, &accounts[0].key, &accounts[1].key, &accounts[3].key, nonce, &accounts[4].key, bump) {
        Err(e) => { return Err(e.into_failure()); },
        Ok(_) => {},
    }
    if !is_system_program(&accounts[4].owner) || buffer_data.len() != 0 {
        return Err(PqSmartAccountError::InvalidAccountData.into_failure());
    }
    Ok((bump, nonce))
}

/// How many signature bytes a buffer holds.
pub open spec fn written(d: Seq<u8>) -> int {
    spec_u16_from_le_bytes(d.subrange(116, 118)) as int
}

/// The buffer after `chunk` is written at its end.
pub open spec fn with_chunk(d: Seq<u8>, chunk: Seq<u8>) -> Seq<u8> {
    spliced(spliced(d, 118 + written(d), chunk), 116, spec_u16_to_le_bytes((written(d) + chunk.len()) as u16))
}

/// Outcome of `write_falcon_signature_chunk` (accounts: authority, smart account, quorum,
/// signature buffer; data: the quorum nonce, the offset, then the chunk).
pub open spec fn write_signature_chunk_outcome(program_id: Seq<u8>, accounts: Seq<AccountHeader>, buffer_data: Seq<u8>, data: Seq<u8>)
    -> Result<(), ProgramFailure> {
    if data.len() < 10 || data.len() == 10 {
        Err(sfail(PqSmartAccountError::InvalidInstructionData))
    } else if accounts.len() < 4 {
        Err(ProgramFailure::NotEnoughAccountKeys)
    } else if !accounts[0].is_signer {
        Err(ProgramFailure::MissingRequiredSignature)
    } else if !accounts[3].is_writable {
        Err(ProgramFailure::InvalidAccountData)
    } else if accounts[1].owner@ != program_id || accounts[3].owner@ != program_id {
        Err(sfail(PqSmartAccountError::InvalidAccountOwner))
    } else if !keys_distinct(account_keys(accounts, 4)) {
        Err(ProgramFailure::InvalidArgument)
    } else {
        match falcon_buffer_check(program_id, accounts[3].key@, buffer_data, accounts[0].key@, accounts[1].key@, accounts[2].key@,
            spec_u64_from_le_bytes(data.subrange(0, 8))) {
            Err(e) => Err(sfail(e)),
            Ok(_) => if spec_u16_from_le_bytes(data.subrange(8, 10)) as int != written(buffer_data) {
                Err(sfail(PqSmartAccountError::InvalidSignatureBuffer))
            } else if written(buffer_data) + (data.len() - 10) > usize::MAX {
                Err(sfail(PqSmartAccountError::ArithmeticOverflow))
            } else if written(buffer_data) + (data.len() - 10) > FALCON_SIGNATURE_LEN {
                Err(sfail(PqSmartAccountError::InvalidInstructionData))
            } else {
                Ok(())
            },
        }
    }
}

/// Appends a chunk of the Falcon signature to its buffer.
pub fn process_write_falcon_signature_chunk(program_id: &[u8; 32], accounts: &[AccountHeader], buffer_data: &mut [u8], data: &[u8])
    -> (res: Result<(), ProgramFailure>)
    ensures
        res == write_signature_chunk_outcome(program_id@, accounts@, old(buffer_data)@, data@),
        res is Ok ==> final(buffer_data)@ == with_chunk(old(buffer_data)@, data@.subrange(10, data@.len() as int)),
        res is Err ==> final(buffer_data)@ == old(buffer_data)@,
{
    if data.len() < 10 {
        return Err(PqSmartAccountError::InvalidInstructionData.into_failure());
    }
    let nonce = match read_u64(data, 0) { Some(v) => v, None => { return Err(PqSmartAccountError::InvalidInstructionData.into_failure()); } };
    let offset = match read_u16(data, 8) { Some(v) => v, None => { return Err(PqSmartAccountError::InvalidInstructionData.into_failure()); } };
    let chunk = &data[10..data.len()];
    if chunk.len() == 0 {
        return Err(PqSmartAccountError::InvalidInstructionData.into_failure());
    }
    if accounts.len() < 4 {
        return Err(ProgramFailure::NotEnoughAccountKeys);
    }
    if !accounts[0].is_signer {
        return Err(ProgramFailure::MissingRequiredSignature);
    }
    if !accounts[3].is_writable {
        return Err(ProgramFailure::InvalidAccountData);
    }
    if !keys_eq(&accounts[1].owner, program_id) || !keys_eq(&accounts[3].owner, program_id) {
        return Err(PqSmartAccountError::InvalidAccountOwner.into_failure());
    }
    match reject_duplicate_accounts(accounts, 4) {
        Err(e) => { return Err(e); },
        Ok(_) => {},
    }
    match validate_falcon_signature_buffer_header(program_id, &accounts[3].key, buffer_data, &accounts[0].key, &accounts[1].key, &accounts[2].key, nonce) {
        Err(e) => { return Err(e.into_failure()); },
        Ok(_) => {},
    }
    let w = match read_u16(buffer_data, SIGBUF_WRITTEN_OFFSET) {
        Some(v) => v,
        None => { return Err(PqSmartAccountError::InvalidInstructionData.into_failure()); },
    };
    if offset != w {
        return Err(PqSmartAccountError::InvalidSignatureBuffer.into_failure());
    }
    let next = match (w as usize).checked_add(chunk.len()) {
        Some(n) => n,
        None => { return Err(PqSmartAccountError::ArithmeticOverflow.into_failure()); },
    };
    if next > FALCON_SIGNATURE_LEN {
        return Err(PqSmartAccountError::InvalidInstructionData.into_failure());
    }
    write_bytes(buffer_data, SIGBUF_DATA_OFFSET + w as usize, chunk);
    let bytes = u16_to_le_bytes(next as u16);
    write_bytes(buffer_data, SIGBUF_WRITTEN_OFFSET, bytes.as_slice());
    Ok(())
}

/// Writing a chunk appends it to the signature: the header stays, the bytes written before
/// stay, the chunk follows them, and the count of written bytes grows by its length. So the
/// chunks written in order make up the signature that a transfer reads back.
pub proof fn law_chunk_appends(d: Seq<u8>, chunk: Seq<u8>)
    requires
        d.len() == 784,
        written(d) + chunk.len() <= FALCON_SIGNATURE_LEN,
    ensures
        with_chunk(d, chunk).len() == 784,
        with_chunk(d, chunk).subrange(0, 116) == d.subrange(0, 116),
        written(with_chunk(d, chunk)) == written(d) + chunk.len(),
        with_chunk(d, chunk).subrange(118, 118 + written(d) + chunk.len()) == d.subrange(118, 118 + written(d)) + chunk,
{
    lemma_auto_spec_u16_to_from_le_bytes();
    let w = written(d);
    let n = (w + chunk.len()) as u16;
    let e1 = spliced(d, 118 + w, chunk);
    let e = spliced(e1, 116, spec_u16_to_le_bytes(n));
    assert(e.subrange(116, 118) =~= spec_u16_to_le_bytes(n));
    assert(e.subrange(0, 116) =~= d.subrange(0, 116));
    assert(e.subrange(118, 118 + w + chunk.len()) =~= d.subrange(118, 118 + w) + chunk);
}

/// A smart account is created only when the authority signs, authority and smart account
/// are writable, the quorum program is executable and owns the quorum, the system program is
/// named, no account repeats, and the smart account is the canonical address of authority,
/// quorum program and quorum with the instruction's bump and is still an empty system account.
pub proof fn law_init_account_requirements(program_id: Seq<u8>, accounts: Seq<AccountHeader>, smart_data: Seq<u8>, data: Seq<u8>)
    ensures
        init_account_outcome(program_id, accounts, smart_data, data) is Ok ==> {
            &&& data.len() == 1
            &&& accounts.len() >= 5
            &&& accounts[0].is_signer && accounts[0].is_writable && accounts[1].is_writable
            &&& accounts[2].executable
            &&& accounts[3].owner@ == accounts[2].key@
            &&& accounts[4].key@ == system_program_id()
            &&& keys_distinct(account_keys(accounts, 5))
            &&& smart_pda_check(program_id, accounts[0].key@, accounts[2].key@, accounts[3].key@, accounts[1].key@, data[0]) is Ok
            &&& accounts[1].owner@ == system_program_id() && smart_data.len() == 0
        },
{
}

/// A deposit is accepted only for a positive amount, signed by the payer, into a writable
/// smart account of the program that passes its checks, through the system program; the
/// amount returned is the one in the instruction.
pub proof fn law_deposit_requirements(program_id: Seq<u8>, accounts: Seq<AccountHeader>, smart_data: Seq<u8>, data: Seq<u8>)
    ensures
        deposit_outcome(program_id, accounts, smart_data, data) matches Ok(amount) ==> {
            &&& data.len() == 8
            &&& amount == spec_u64_from_le_bytes(data) && amount > 0
            &&& accounts.len() >= 3
            &&& accounts[0].is_signer && accounts[0].is_writable && accounts[1].is_writable
            &&& accounts[1].owner@ == program_id
            &&& accounts[2].key@ == system_program_id()
            &&& accounts[0].key@ != accounts[1].key@ && accounts[1].key@ != accounts[2].key@
            &&& smart_state_check(program_id, accounts[1].key@, smart_data, None, None) is Ok
        },
{
}

/// A Falcon signature buffer is created only when the authority signs, the smart account is
/// the program's and passes its checks for this authority and (quorum program, quorum) pair,
/// the quorum program is executable and owns the quorum, the system program is named, no
/// account repeats, and the buffer is the per-nonce buffer address with the instruction's bump
/// and is still an empty system account.
pub proof fn law_init_falcon_signature_requirements(program_id: Seq<u8>, accounts: Seq<AccountHeader>, smart_data: Seq<u8>, buffer_data: Seq<u8>,
    data: Seq<u8>)
    ensures
        init_falcon_signature_outcome(program_id, accounts, smart_data, buffer_data, data) is Ok ==> {
            &&& data.len() == 9
            &&& accounts.len() >= 6
            &&& accounts[0].is_signer && accounts[0].is_writable && accounts[4].is_writable
            &&& accounts[1].owner@ == program_id && accounts[3].owner@ == accounts[2].key@
            &&& accounts[2].executable
            &&& accounts[5].key@ == system_program_id()
            &&& keys_distinct(account_keys(accounts, 6))
            &&& smart_state_check(program_id, accounts[1].key@, smart_data, Some(accounts[0].key@), Some((accounts[2].key@, accounts[3].key@))) is Ok
            &&& falcon_buffer_pda_check(program_id, accounts[0].key@, accounts[1].key@, accounts[3].key@, spec_u64_from_le_bytes(data.subrange(1, 9)),
                accounts[4].key@, data[0]) is Ok
            &&& accounts[4].owner@ == system_program_id() && buffer_data.len() == 0
        },
{
}

/// A Falcon signature chunk is written only by the signing authority into a writable buffer
/// of the program that passes its checks for this smart account, quorum and nonce, starting
/// where the written bytes end and staying within the 666-byte signature.
pub proof fn law_falcon_chunk_requirements(program_id: Seq<u8>, accounts: Seq<AccountHeader>, buffer_data: Seq<u8>, data: Seq<u8>)
    ensures
        write_signature_chunk_outcome(program_id, accounts, buffer_data, data) is Ok ==> {
            &&& data.len() > 10
            &&& accounts.len() >= 4
            &&& accounts[0].is_signer && accounts[3].is_writable
            &&& accounts[1].owner@ == program_id && accounts[3].owner@ == program_id
            &&& keys_distinct(account_keys(accounts, 4))
            &&& falcon_buffer_check(program_id, accounts[3].key@, buffer_data, accounts[0].key@, accounts[1].key@, accounts[2].key@,
                spec_u64_from_le_bytes(data.subrange(0, 8))) is Ok
            &&& spec_u16_from_le_bytes(data.subrange(8, 10)) as int == written(buffer_data)
            &&& written(buffer_data) + (data.len() - 10) <= FALCON_SIGNATURE_LEN
        },
{
}

} // verus!
