//! The quorum's setup instructions: registering a quorum, creating the upload buffers and
//! the proof account, writing ML-DSA keys and signatures chunk by chunk, and preparing an
//! uploaded key.
use vstd::prelude::*;
use vstd::bytes::{spec_u64_from_le_bytes, spec_u16_from_le_bytes, spec_u16_to_le_bytes, u16_to_le_bytes, lemma_auto_spec_u16_to_from_le_bytes};
use crate::runtime::{AccountHeader, ProgramFailure, keys_eq, is_system_program, system_program_id, read_u64, read_u16, write_bytes, spliced};
use crate::mldsa44::protocol::{
    prepare_mldsa44_public_key, prepared_key_layout, MLDSA44_PUBLIC_KEY_LEN, MLDSA44_SIGNATURE_LEN, MLDSA44_PREPARED_PUBLIC_KEY_LEN,
};
use crate::mldsa44::arith::q;
use crate::mldsa44::layout::prepared_poly_within;
use crate::quorum::state::{
    PqQuorumAuthError, qfail, keys_distinct, pda_check, quorum_seeds, validate_quorum_pda, falcon_key_pda_check, validate_falcon_key_pda,
    nonce_seeds, validate_nonce_pda, key_buffer_seeds, validate_mldsa_public_key_pda, quorum_authority_check, validate_quorum_authority,
    is_mldsa_quorum_mode, WINTERNITZ_SIGNATURE_SEED, MLDSA_SIGNATURE_SEED, MLDSA_PROOF_SEED,
};
use crate::quorum::approve::account_keys;
use crate::quorum::wots::buffer_written;
use crate::quorum::mldsa_proof::{mldsa_buffer_check, validate_mldsa_buffer_header, mldsa_buffers_check, validate_mldsa_buffer_data,
    key_buffer_wf, lemma_coeffs_shift, key_buffer_sound, buffered_prepared_key, buffered_public_key};
use crate::smart_account::transfer::reject_duplicate_accounts;

verus! {

/// The Winternitz root a quorum is registered with.
pub struct QuorumRegistration {
    pub bump: u8,
    pub cluster: u8,
    pub winternitz_root: [u8; 32],
}

/// Outcome of `register_quorum` (accounts: authority, quorum, Falcon key, Falcon program,
/// system program; data: bump, cluster, Winternitz root), given the quorum's current data.
pub open spec fn register_quorum_outcome(program_id: Seq<u8>, accounts: Seq<AccountHeader>, quorum_data: Seq<u8>, data: Seq<u8>) -> Result<(), ProgramFailure> {
    if data.len() != 34 {
        Err(qfail(PqQuorumAuthError::InvalidInstructionData))
    } else if accounts.len() < 5 {
        Err(ProgramFailure::NotEnoughAccountKeys)
    } else if !accounts[0].is_signer {
        Err(ProgramFailure::MissingRequiredSignature)
    } else if !accounts[0].is_writable || !accounts[1].is_writable {
        Err(ProgramFailure::InvalidAccountData)
    } else if !accounts[3].executable {
        Err(qfail(PqQuorumAuthError::InvalidFalconAuthProgram))
    } else if accounts[4].key@ != system_program_id() {
        Err(ProgramFailure::IncorrectProgramId)
    } else if accounts[1].key@ == accounts[0].key@ || accounts[1].key@ == accounts[2].key@ || accounts[1].key@ == accounts[3].key@
        || accounts[2].key@ == accounts[3].key@ {
        Err(ProgramFailure::InvalidArgument)
    } else {
        match pda_check(quorum_seeds(accounts[0].key@, accounts[3].key@), program_id, accounts[1].key@, data[0]) {
            Err(e) => Err(qfail(e)),
            Ok(_) => match falcon_key_pda_check(accounts[3].key@, accounts[0].key@, accounts[2].key@) {
                Err(e) => Err(qfail(e)),
                Ok(_) => if accounts[2].owner@ != accounts[3].key@ {
                    Err(qfail(PqQuorumAuthError::InvalidAccountOwner))
                } else if accounts[1].owner@ != system_program_id() || quorum_data.len() != 0 {
                    Err(qfail(PqQuorumAuthError::InvalidAccountData))
                } else {
                    Ok(())
                },
            },
        }
    }
}

/// Checks `register_quorum`; on success the runtime creates the quorum account and the
/// caller writes it with `write_quorum_state`, the values returned here and nonce zero.
pub fn plan_register_quorum(program_id: &[u8; 32], accounts: &[AccountHeader], quorum_data: &[u8], data: &[u8])
    -> (res: Result<QuorumRegistration, ProgramFailure>)
    ensures
        res is Ok <==> register_quorum_outcome(program_id@, accounts@, quorum_data@, data@) is Ok,
        res matches Err(e) ==> register_quorum_outcome(program_id@, accounts@, quorum_data@, data@) == Err::<(), ProgramFailure>(e),
        res matches Ok(r) ==> r.bump == data@[0] && r.cluster == data@[1] && r.winternitz_root@ == data@.subrange(2, 34),
{
    if data.len() != 34 {
        return Err(PqQuorumAuthError::InvalidInstructionData.into_failure());
    }
    let bump = data[0];
    let cluster = data[1];
    let mut root = [0u8; 32];
    let mut i: usize = 0;
    while i < 32
        invariant
            data@.len() == 34,
            i <= 32,
            forall|j: int| 0 <= j < i ==> root@[j] == data@[2 + j],
        decreases 32 - i,
    {
        root[i] = data[2 + i];
        i += 1;
    }
    proof {
        assert(root@ =~= data@.subrange(2, 34));
    }
    if accounts.len() < 5 {
        return Err(ProgramFailure::NotEnoughAccountKeys);
    }
    if !accounts[0].is_signer {
        return Err(ProgramFailure::MissingRequiredSignature);
    }
    if !accounts[0].is_writable || !accounts[1].is_writable {
        return Err(ProgramFailure::InvalidAccountData);
    }
    if !accounts[3].executable {
        return Err(PqQuorumAuthError::InvalidFalconAuthProgram.into_failure());
    }
    if !is_system_program(&accounts[4].key) {
        return Err(ProgramFailure::IncorrectProgramId);
    }
    if keys_eq(&accounts[1].key, &accounts[0].key) || keys_eq(&accounts[1].key, &accounts[2].key) || keys_eq(&accounts[1].key, &accounts[3].key)
        || keys_eq(&accounts[2].key, &accounts[3].key) {
        return Err(ProgramFailure::InvalidArgument);
    }
    match validate_quorum_pda(program_id, &accounts[0].key, &accounts[3].key, &accounts[1].key, bump) {
        Err(e) => { return Err(e.into_failure()); },
        Ok(_) => {},
    }
    match validate_falcon_key_pda(&accounts[3].key, &accounts[0].key, &accounts[2].key) {
        Err(e) => { return Err(e.into_failure()); },
        Ok(_) => {},
    }
    if !keys_eq(&accounts[2].owner, &accounts[3].key) {
        return Err(PqQuorumAuthError::InvalidAccountOwner.into_failure());
    }
    if !is_system_program(&accounts[1].owner) || quorum_data.len() != 0 {
        return Err(PqQuorumAuthError::InvalidAccountData.into_failure());
    }
    Ok(QuorumRegistration { bump, cluster, winternitz_root: root })
}

/// The checks every buffer creation starts with (accounts: authority, quorum, buffer,
/// system program).
pub open spec fn buffer_creation_check(program_id: Seq<u8>, accounts: Seq<AccountHeader>, quorum_data: Seq<u8>) -> Result<(), ProgramFailure> {
    if accounts.len() < 4 {
        Err(ProgramFailure::NotEnoughAccountKeys)
    } else if !accounts[0].is_signer {
        Err(ProgramFailure::MissingRequiredSignature)
    } else if !accounts[0].is_writable || !accounts[2].is_writable {
        Err(ProgramFailure::InvalidAccountData)
    } else if accounts[3].key@ != system_program_id() {
        Err(ProgramFailure::IncorrectProgramId)
    } else if accounts[1].owner@ != program_id {
        Err(qfail(PqQuorumAuthError::InvalidAccountOwner))
    } else if !quorum_authority_check(accounts[0].key@, quorum_data) {
        Err(qfail(PqQuorumAuthError::InvalidAccountData))
    } else {
        Ok(())
    }
}

fn check_buffer_creation(program_id: &[u8; 32], accounts: &[AccountHeader], quorum_data: &[u8]) -> (res: Result<(), ProgramFailure>)
    ensures
        res == buffer_creation_check(program_id@, accounts@, quorum_data@),
{
    if accounts.len() < 4 {
        return Err(ProgramFailure::NotEnoughAccountKeys);
    }
    if !accounts[0].is_signer {
        return Err(ProgramFailure::MissingRequiredSignature);
    }
    if !accounts[0].is_writable || !accounts[2].is_writable {
        return Err(ProgramFailure::InvalidAccountData);
    }
    if !is_system_program(&accounts[3].key) {
        return Err(ProgramFailure::IncorrectProgramId);
    }
    if !keys_eq(&accounts[1].owner, program_id) {
        return Err(PqQuorumAuthError::InvalidAccountOwner.into_failure());
    }
    match validate_quorum_authority(&accounts[0].key, quorum_data) {
        Err(e) => Err(e.into_failure()),
        Ok(_) => Ok(()),
    }
}

/// The buffer's address is the PDA of `seeds` with the given bump, and the account is still
/// an empty system account; `error` otherwise.
pub open spec fn fresh_buffer_check(program_id: Seq<u8>, accounts: Seq<AccountHeader>, buffer_data: Seq<u8>, seeds: Seq<Seq<u8>>, bump: u8,
    error: PqQuorumAuthError) -> Result<(), ProgramFailure> {
    match pda_check(seeds, program_id, accounts[2].key@, bump) {
        Err(e) => Err(qfail(e)),
        Ok(_) => if accounts[2].owner@ != system_program_id() || buffer_data.len() != 0 { Err(qfail(error)) } else { Ok(()) },
    }
}

/// Outcome of `init_winternitz_signature` (data: bump, quorum nonce).
pub open spec fn init_winternitz_signature_outcome(program_id: Seq<u8>, accounts: Seq<AccountHeader>, quorum_data: Seq<u8>, buffer_data: Seq<u8>,
    data: Seq<u8>) -> Result<(), ProgramFailure> {
    if data.len() != 9 {
        Err(qfail(PqQuorumAuthError::InvalidInstructionData))
    } else {
        match buffer_creation_check(program_id, accounts, quorum_data) {
            Err(e) => Err(e),
            Ok(_) => fresh_buffer_check(program_id, accounts, buffer_data,
                nonce_seeds(WINTERNITZ_SIGNATURE_SEED@, accounts[0].key@, accounts[1].key@, spec_u64_from_le_bytes(data.subrange(1, 9))), data[0],
                PqQuorumAuthError::InvalidSignatureBuffer),
        }
    }
}

/// Checks `init_winternitz_signature`; on success the runtime creates the buffer and the
/// caller writes it with `write_signature_buffer_header` and the bump and nonce returned.
pub fn plan_init_winternitz_signature(program_id: &[u8; 32], accounts: &[AccountHeader], quorum_data: &[u8], buffer_data: &[u8], data: &[u8])
    -> (res: Result<(u8, u64), ProgramFailure>)
    ensures
        res is Ok <==> init_winternitz_signature_outcome(program_id@, accounts@, quorum_data@, buffer_data@, data@) is Ok,
        res matches Err(e) ==> init_winternitz_signature_outcome(program_id@, accounts@, quorum_data@, buffer_data@, data@) == Err::<(), ProgramFailure>(e),
        res matches Ok((bump, nonce)) ==> bump == data@[0] && nonce == spec_u64_from_le_bytes(data@.subrange(1, 9)),
{
    if data.len() != 9 {
        return Err(PqQuorumAuthError::InvalidInstructionData.into_failure());
    }
    let bump = data[0];
    let nonce = match read_u64(data, 1) { Some(v) => v, None => { return Err(PqQuorumAuthError::InvalidInstructionData.into_failure()); } };
    check_buffer_creation(program_id, accounts, quorum_data)?;
    match validate_nonce_pda(WINTERNITZ_SIGNATURE_SEED.as_slice(), program_id, &accounts[0].key, &accounts[1].key, nonce, &accounts[2].key, bump) {
        Err(e) => { return Err(e.into_failure()); },
        Ok(_) => {},
    }
    if !is_system_program(&accounts[2].owner) || buffer_data.len() != 0 {
        return Err(PqQuorumAuthError::InvalidSignatureBuffer.into_failure());
    }
    Ok((bump, nonce))
}

/// Outcome of `init_mldsa_public_key` (data: bump).
pub open spec fn init_mldsa_public_key_outcome(program_id: Seq<u8>, accounts: Seq<AccountHeader>, quorum_data: Seq<u8>, buffer_data: Seq<u8>,
    data: Seq<u8>) -> Result<(), ProgramFailure> {
    if data.len() != 1 {
        Err(qfail(PqQuorumAuthError::InvalidInstructionData))
    } else {
        match buffer_creation_check(program_id, accounts, quorum_data) {
            Err(e) => Err(e),
            Ok(_) => fresh_buffer_check(program_id, accounts, buffer_data, key_buffer_seeds(accounts[0].key@, accounts[1].key@), data[0],
                PqQuorumAuthError::InvalidMldsaPublicKey),
        }
    }
}

/// Checks `init_mldsa_public_key`; on success the runtime creates the key buffer and the
/// caller writes it with `write_mldsa_buffer_header`, the bump returned and nonce zero.
pub fn plan_init_mldsa_public_key(program_id: &[u8; 32], accounts: &[AccountHeader], quorum_data: &[u8], buffer_data: &[u8], data: &[u8])
    -> (res: Result<u8, ProgramFailure>)
    ensures
        res is Ok <==> init_mldsa_public_key_outcome(program_id@, accounts@, quorum_data@, buffer_data@, data@) is Ok,
        res matches Err(e) ==> init_mldsa_public_key_outcome(program_id@, accounts@, quorum_data@, buffer_data@, data@) == Err::<(), ProgramFailure>(e),
        res matches Ok(bump) ==> bump == data@[0],
{
    if data.len() != 1 {
        return Err(PqQuorumAuthError::InvalidInstructionData.into_failure());
    }
    let bump = data[0];
    check_buffer_creation(program_id, accounts, quorum_data)?;
    match validate_mldsa_public_key_pda(program_id, &accounts[0].key, &accounts[1].key, &accounts[2].key, bump) {
        Err(e) => { return Err(e.into_failure()); },
        Ok(_) => {},
    }
    if !is_system_program(&accounts[2].owner) || buffer_data.len() != 0 {
        return Err(PqQuorumAuthError::InvalidMldsaPublicKey.into_failure());
    }
    Ok(bump)
}

/// Outcome of `init_mldsa_signature` (data: bump, quorum nonce).
pub open spec fn init_mldsa_signature_outcome(program_id: Seq<u8>, accounts: Seq<AccountHeader>, quorum_data: Seq<u8>, buffer_data: Seq<u8>,
    data: Seq<u8>) -> Result<(), ProgramFailure> {
    if data.len() != 9 {
        Err(qfail(PqQuorumAuthError::InvalidInstructionData))
    } else {
        match buffer_creation_check(program_id, accounts, quorum_data) {
            Err(e) => Err(e),
            Ok(_) => fresh_buffer_check(program_id, accounts, buffer_data,
                nonce_seeds(MLDSA_SIGNATURE_SEED@, accounts[0].key@, accounts[1].key@, spec_u64_from_le_bytes(data.subrange(1, 9))), data[0],
                PqQuorumAuthError::InvalidMldsaSignature),
        }
    }
}

/// Checks `init_mldsa_signature`; on success the runtime creates the signature buffer and
/// the caller writes it with `write_mldsa_buffer_header` and the bump and nonce returned.
pub fn plan_init_mldsa_signature(program_id: &[u8; 32], accounts: &[AccountHeader], quorum_data: &[u8], buffer_data: &[u8], data: &[u8])
    -> (res: Result<(u8, u64), ProgramFailure>)
    ensures
        res is Ok <==> init_mldsa_signature_outcome(program_id@, accounts@, quorum_data@, buffer_data@, data@) is Ok,
        res matches Err(e) ==> init_mldsa_signature_outcome(program_id@, accounts@, quorum_data@, buffer_data@, data@) == Err::<(), ProgramFailure>(e),
        res matches Ok((bump, nonce)) ==> bump == data@[0] && nonce == spec_u64_from_le_bytes(data@.subrange(1, 9)),
{
    if data.len() != 9 {
        return Err(PqQuorumAuthError::InvalidInstructionData.into_failure());
    }
    let bump = data[0];
    let nonce = match read_u64(data, 1) { Some(v) => v, None => { return Err(PqQuorumAuthError::InvalidInstructionData.into_failure()); } };
    check_buffer_creation(program_id, accounts, quorum_data)?;
    match validate_nonce_pda(MLDSA_SIGNATURE_SEED.as_slice(), program_id, &accounts[0].key, &accounts[1].key, nonce, &accounts[2].key, bump) {
        Err(e) => { return Err(e.into_failure()); },
        Ok(_) => {},
    }
    if !is_system_program(&accounts[2].owner) || buffer_data.len() != 0 {
        return Err(PqQuorumAuthError::InvalidMldsaSignature.into_failure());
    }
    Ok((bump, nonce))
}

/// What an initialized proof account is made from.
pub struct ProofInit {
    pub bump: u8,
    pub mode: u8,
    pub quorum_nonce: u64,
    pub payload_hash: [u8; 32],
}

/// Outcome of `init_mldsa_proof` (accounts: authority, quorum, proof, ML-DSA key buffer,
/// signature buffer, system program; data: bump, mode, quorum nonce, payload hash).
pub open spec fn init_mldsa_proof_outcome(program_id: Seq<u8>, accounts: Seq<AccountHeader>, quorum_data: Seq<u8>, key_data: Seq<u8>,
    sig_data: Seq<u8>, proof_data: Seq<u8>, data: Seq<u8>) -> Result<(), ProgramFailure> {
    if data.len() != 42 {
        Err(qfail(PqQuorumAuthError::InvalidInstructionData))
    } else if !(data[1] == 5 || data[1] == 6) {
        Err(qfail(PqQuorumAuthError::InvalidMldsaProof))
    } else if accounts.len() < 6 {
        Err(ProgramFailure::NotEnoughAccountKeys)
    } else if !accounts[0].is_signer {
        Err(ProgramFailure::MissingRequiredSignature)
    } else if !accounts[0].is_writable || !accounts[2].is_writable {
        Err(ProgramFailure::InvalidAccountData)
    } else if accounts[5].key@ != system_program_id() {
        Err(ProgramFailure::IncorrectProgramId)
    } else if accounts[1].owner@ != program_id || accounts[3].owner@ != program_id || accounts[4].owner@ != program_id {
        Err(qfail(PqQuorumAuthError::InvalidAccountOwner))
    } else if !keys_distinct(account_keys(accounts, 6)) {
        Err(ProgramFailure::InvalidArgument)
    } else if !quorum_authority_check(accounts[0].key@, quorum_data) {
        Err(qfail(PqQuorumAuthError::InvalidAccountData))
    } else {
        let nonce = spec_u64_from_le_bytes(data.subrange(2, 10));
        match pda_check(nonce_seeds(MLDSA_PROOF_SEED@, accounts[0].key@, accounts[1].key@, nonce), program_id, accounts[2].key@, data[0]) {
            Err(e) => Err(qfail(e)),
            Ok(_) => match mldsa_buffers_check(program_id, accounts[0].key@, accounts[1].key@, nonce, accounts[3].key@, key_data, accounts[4].key@,
                sig_data) {
                Err(e) => Err(qfail(e)),
                Ok(_) => if accounts[2].owner@ != system_program_id() || proof_data.len() != 0 {
                    Err(qfail(PqQuorumAuthError::InvalidMldsaProof))
                } else {
                    Ok(())
                },
            },
        }
    }
}

/// Checks `init_mldsa_proof`; on success the runtime creates the proof account and the
/// caller writes it with `write_mldsa_proof_state` and the values returned here.
pub fn plan_init_mldsa_proof(program_id: &[u8; 32], accounts: &[AccountHeader], quorum_data: &[u8], key_data: &[u8], sig_data: &[u8],
    proof_data: &[u8], data: &[u8]) -> (res: Result<ProofInit, ProgramFailure>)
    ensures
        res is Ok <==> init_mldsa_proof_outcome(program_id@, accounts@, quorum_data@, key_data@, sig_data@, proof_data@, data@) is Ok,
        res matches Err(e) ==> init_mldsa_proof_outcome(program_id@, accounts@, quorum_data@, key_data@, sig_data@, proof_data@, data@)
            == Err::<(), ProgramFailure>(e),
        res matches Ok(p) ==> p.bump == data@[0] && p.mode == data@[1] && p.quorum_nonce == spec_u64_from_le_bytes(data@.subrange(2, 10))
            && p.payload_hash@ == data@.subrange(10, 42),
{
    if data.len() != 42 {
        return Err(PqQuorumAuthError::InvalidInstructionData.into_failure());
    }
    let bump = data[0];
    let mode = data[1];
    let nonce = match read_u64(data, 2) { Some(v) => v, None => { return Err(PqQuorumAuthError::InvalidInstructionData.into_failure()); } };
    let mut payload_hash = [0u8; 32];
    let mut i: usize = 0;
    while i < 32
        invariant
            data@.len() == 42,
            i <= 32,
            forall|j: int| 0 <= j < i ==> payload_hash@[j] == data@[10 + j],
        decreases 32 - i,
    {
        payload_hash[i] = data[10 + i];
        i += 1;
    }
    proof {
        assert(payload_hash@ =~= data@.subrange(10, 42));
    }
    if !is_mldsa_quorum_mode(mode) {
        return Err(PqQuorumAuthError::InvalidMldsaProof.into_failure());
    }
    if accounts.len() < 6 {
        return Err(ProgramFailure::NotEnoughAccountKeys);
    }
    if !accounts[0].is_signer {
        return Err(ProgramFailure::MissingRequiredSignature);
    }
    if !accounts[0].is_writable || !accounts[2].is_writable {
        return Err(ProgramFailure::InvalidAccountData);
    }
    if !is_system_program(&accounts[5].key) {
        return Err(ProgramFailure::IncorrectProgramId);
    }
    if !keys_eq(&accounts[1].owner, program_id) || !keys_eq(&accounts[3].owner, program_id) || !keys_eq(&accounts[4].owner, program_id) {
        return Err(PqQuorumAuthError::InvalidAccountOwner.into_failure());
    }
    reject_duplicate_accounts(accounts, 6)?;
    match validate_quorum_authority(&accounts[0].key, quorum_data) {
        Err(e) => { return Err(e.into_failure()); },
        Ok(_) => {},
    }
    match validate_nonce_pda(MLDSA_PROOF_SEED.as_slice(), program_id, &accounts[0].key, &accounts[1].key, nonce, &accounts[2].key, bump) {
        Err(e) => { return Err(e.into_failure()); },
        Ok(_) => {},
    }
    match validate_mldsa_buffer_data(program_id, &accounts[0].key, &accounts[1].key, nonce, &accounts[3].key, key_data, &accounts[4].key, sig_data) {
        Err(e) => { return Err(e.into_failure()); },
        Ok(_) => {},
    }
    if !is_system_program(&accounts[2].owner) || proof_data.len() != 0 {
        return Err(PqQuorumAuthError::InvalidMldsaProof.into_failure());
    }
    Ok(ProofInit { bump, mode, quorum_nonce: nonce, payload_hash })
}

// ---------------------------------------------------------------------------------------
// ML-DSA uploads.

/// Where a chunk starts in a write's data: after the offset for the key buffer, after the
/// quorum nonce and the offset for a signature buffer.
pub open spec fn chunk_start(is_key: bool) -> int {
    if is_key { 2 } else { 10 }
}

/// How many payload bytes the buffer takes.
pub open spec fn upload_len(is_key: bool) -> int {
    if is_key { MLDSA44_PUBLIC_KEY_LEN as int } else { MLDSA44_SIGNATURE_LEN as int }
}

pub open spec fn upload_error(is_key: bool) -> PqQuorumAuthError {
    if is_key { PqQuorumAuthError::InvalidMldsaPublicKey } else { PqQuorumAuthError::InvalidMldsaSignature }
}

/// Outcome of writing a chunk into the ML-DSA key buffer (`is_key`) or a signature buffer
/// (accounts: authority, quorum, buffer).
pub open spec fn write_mldsa_chunk_outcome(program_id: Seq<u8>, accounts: Seq<AccountHeader>, quorum_data: Seq<u8>, d: Seq<u8>, data: Seq<u8>,
    is_key: bool) -> Result<(), ProgramFailure> {
    let start = chunk_start(is_key);
    if data.len() <= start || data.len() - start > upload_len(is_key) {
        Err(qfail(PqQuorumAuthError::InvalidInstructionData))
    } else if accounts.len() < 3 {
        Err(ProgramFailure::NotEnoughAccountKeys)
    } else if !accounts[0].is_signer {
        Err(ProgramFailure::MissingRequiredSignature)
    } else if !accounts[2].is_writable {
        Err(ProgramFailure::InvalidAccountData)
    } else if accounts[1].owner@ != program_id || accounts[2].owner@ != program_id {
        Err(qfail(PqQuorumAuthError::InvalidAccountOwner))
    } else if !quorum_authority_check(accounts[0].key@, quorum_data) {
        Err(qfail(PqQuorumAuthError::InvalidAccountData))
    } else {
        let nonce = if is_key { 0 } else { spec_u64_from_le_bytes(data.subrange(0, 8)) };
        match mldsa_buffer_check(program_id, accounts[0].key@, accounts[1].key@, nonce, accounts[2].key@, d, is_key, upload_error(is_key)) {
            Err(e) => Err(qfail(e)),
            Ok(_) => {
                let offset = spec_u16_from_le_bytes(data.subrange(start - 2, start)) as int;
                if offset != buffer_written(d) as int || offset + (data.len() - start) > upload_len(is_key) {
                    Err(qfail(PqQuorumAuthError::InvalidInstructionData))
                } else {
                    Ok(())
                }
            },
        }
    }
}

/// The buffer after the chunk of a write is appended at its end.
pub open spec fn with_mldsa_chunk(d: Seq<u8>, data: Seq<u8>, is_key: bool) -> Seq<u8> {
    let chunk = data.subrange(chunk_start(is_key), data.len() as int);
    spliced(spliced(d, 86 + buffer_written(d), chunk), 84, spec_u16_to_le_bytes((buffer_written(d) + chunk.len()) as u16))
}

/// Appends a chunk to the ML-DSA key buffer (`is_key`) or to a signature buffer; chunks must
/// arrive in order.
pub fn process_write_mldsa_buffer_chunk(program_id: &[u8; 32], accounts: &[AccountHeader], quorum_data: &[u8], buffer_data: &mut [u8], data: &[u8],
    is_key: bool) -> (res: Result<(), ProgramFailure>)
    ensures
        res == write_mldsa_chunk_outcome(program_id@, accounts@, quorum_data@, old(buffer_data)@, data@, is_key),
        res is Ok ==> final(buffer_data)@ == with_mldsa_chunk(old(buffer_data)@, data@, is_key),
        res is Err ==> final(buffer_data)@ == old(buffer_data)@,
        res is Ok ==> buffer_written(old(buffer_data)@) < upload_len(is_key) && buffer_written(final(buffer_data)@) <= upload_len(is_key),
        is_key && key_buffer_sound(old(buffer_data)@) ==> key_buffer_sound(final(buffer_data)@),
{
    let start: usize = if is_key { 2 } else { 10 };
    let payload: usize = if is_key { MLDSA44_PUBLIC_KEY_LEN } else { MLDSA44_SIGNATURE_LEN };
    if data.len() < start {
        return Err(PqQuorumAuthError::InvalidInstructionData.into_failure());
    }
    let offset = match read_u16(data, start - 2) { Some(v) => v as usize, None => { return Err(PqQuorumAuthError::InvalidInstructionData.into_failure()); } };
    let chunk = &data[start..data.len()];
    if chunk.len() == 0 || chunk.len() > payload {
        return Err(PqQuorumAuthError::InvalidInstructionData.into_failure());
    }
    let nonce: u64 = if is_key {
        0
    } else {
        match read_u64(data, 0) { Some(v) => v, None => { return Err(PqQuorumAuthError::InvalidInstructionData.into_failure()); } }
    };
    if accounts.len() < 3 {
        return Err(ProgramFailure::NotEnoughAccountKeys);
    }
    if !accounts[0].is_signer {
        return Err(ProgramFailure::MissingRequiredSignature);
    }
    if !accounts[2].is_writable {
        return Err(ProgramFailure::InvalidAccountData);
    }
    if !keys_eq(&accounts[1].owner, program_id) || !keys_eq(&accounts[2].owner, program_id) {
        return Err(PqQuorumAuthError::InvalidAccountOwner.into_failure());
    }
    match validate_quorum_authority(&accounts[0].key, quorum_data) {
        Err(e) => { return Err(e.into_failure()); },
        Ok(_) => {},
    }
    let error = if is_key { PqQuorumAuthError::InvalidMldsaPublicKey } else { PqQuorumAuthError::InvalidMldsaSignature };
    match validate_mldsa_buffer_header(program_id, &accounts[0].key, &accounts[1].key, nonce, &accounts[2].key, buffer_data, is_key, error) {
        Err(e) => { return Err(e.into_failure()); },
        Ok(_) => {},
    }
    let written = match read_u16(buffer_data, 84) { Some(v) => v as usize, None => { return Err(PqQuorumAuthError::InvalidInstructionData.into_failure()); } };
    let end = offset + chunk.len();
    if offset != written || end > payload {
        return Err(PqQuorumAuthError::InvalidInstructionData.into_failure());
    }
    let ghost before = buffer_data@;
    write_bytes(buffer_data, 86 + offset, chunk);
    let end_bytes = u16_to_le_bytes(end as u16);
    write_bytes(buffer_data, 84, end_bytes.as_slice());
    proof {
        law_mldsa_chunk_appends(before, data@, is_key);
    }
    Ok(())
}

/// Appends a chunk of the raw ML-DSA public key to the quorum's key buffer.
pub fn process_write_mldsa_public_key_chunk(program_id: &[u8; 32], accounts: &[AccountHeader], quorum_data: &[u8], buffer_data: &mut [u8],
    data: &[u8]) -> (res: Result<(), ProgramFailure>)
    ensures
        res == write_mldsa_chunk_outcome(program_id@, accounts@, quorum_data@, old(buffer_data)@, data@, true),
        res is Ok ==> final(buffer_data)@ == with_mldsa_chunk(old(buffer_data)@, data@, true),
        res is Err ==> final(buffer_data)@ == old(buffer_data)@,
{
    process_write_mldsa_buffer_chunk(program_id, accounts, quorum_data, buffer_data, data, true)
}

/// Appends a chunk of an ML-DSA signature to its per-nonce buffer.
pub fn process_write_mldsa_signature_chunk(program_id: &[u8; 32], accounts: &[AccountHeader], quorum_data: &[u8], buffer_data: &mut [u8],
    data: &[u8]) -> (res: Result<(), ProgramFailure>)
    ensures
        res == write_mldsa_chunk_outcome(program_id@, accounts@, quorum_data@, old(buffer_data)@, data@, false),
        res is Ok ==> final(buffer_data)@ == with_mldsa_chunk(old(buffer_data)@, data@, false),
        res is Err ==> final(buffer_data)@ == old(buffer_data)@,
{
    process_write_mldsa_buffer_chunk(program_id, accounts, quorum_data, buffer_data, data, false)
}

/// Writing a chunk appends it to the upload: the header stays, the bytes written before
/// stay, the chunk follows them and the count of written bytes grows by its length.
pub proof fn law_mldsa_chunk_appends(d: Seq<u8>, data: Seq<u8>, is_key: bool)
    requires
        d.len() >= 86 + upload_len(is_key),
        data.len() > chunk_start(is_key),
        buffer_written(d) + (data.len() - chunk_start(is_key)) <= upload_len(is_key),
    ensures
        ({
            let e = with_mldsa_chunk(d, data, is_key);
            let w = buffer_written(d) as int;
            let chunk = data.subrange(chunk_start(is_key), data.len() as int);
            &&& e.len() == d.len()
            &&& e.subrange(0, 84) == d.subrange(0, 84)
            &&& buffer_written(e) == w + chunk.len()
            &&& e.subrange(86, 86 + w + chunk.len()) == d.subrange(86, 86 + w) + chunk
        }),
{
    lemma_auto_spec_u16_to_from_le_bytes();
    let w = buffer_written(d) as int;
    let chunk = data.subrange(chunk_start(is_key), data.len() as int);
    let n = (w + chunk.len()) as u16;
    let e1 = spliced(d, 86 + w, chunk);
    let e = spliced(e1, 84, spec_u16_to_le_bytes(n));
    assert(e.subrange(84, 86) =~= spec_u16_to_le_bytes(n));
    assert(e.subrange(0, 84) =~= d.subrange(0, 84));
    assert(e.subrange(86, 86 + w + chunk.len()) =~= d.subrange(86, 86 + w) + chunk);
}

/// Outcome of `finalize_mldsa_public_key` (accounts: authority, quorum, key buffer).
pub open spec fn finalize_mldsa_public_key_outcome(program_id: Seq<u8>, accounts: Seq<AccountHeader>, quorum_data: Seq<u8>, d: Seq<u8>,
    data: Seq<u8>) -> Result<(), ProgramFailure> {
    if data.len() != 0 {
        Err(qfail(PqQuorumAuthError::InvalidInstructionData))
    } else if accounts.len() < 3 {
        Err(ProgramFailure::NotEnoughAccountKeys)
    } else if !accounts[0].is_signer {
        Err(ProgramFailure::MissingRequiredSignature)
    } else if !accounts[2].is_writable {
        Err(ProgramFailure::InvalidAccountData)
    } else if accounts[1].owner@ != program_id || accounts[2].owner@ != program_id {
        Err(qfail(PqQuorumAuthError::InvalidAccountOwner))
    } else if !quorum_authority_check(accounts[0].key@, quorum_data) {
        Err(qfail(PqQuorumAuthError::InvalidAccountData))
    } else {
        match mldsa_buffer_check(program_id, accounts[0].key@, accounts[1].key@, 0, accounts[2].key@, d, true, PqQuorumAuthError::InvalidMldsaPublicKey) {
            Err(e) => Err(qfail(e)),
            Ok(_) => if buffer_written(d) != MLDSA44_PUBLIC_KEY_LEN { Err(qfail(PqQuorumAuthError::InvalidMldsaPublicKey)) } else { Ok(()) },
        }
    }
}

/// Replaces the complete raw key in the key buffer by its prepared form, ready for proofs.
pub fn process_finalize_mldsa_public_key(program_id: &[u8; 32], accounts: &[AccountHeader], quorum_data: &[u8], buffer_data: &mut [u8], data: &[u8])
    -> (res: Result<(), ProgramFailure>)
    ensures
        res == finalize_mldsa_public_key_outcome(program_id@, accounts@, quorum_data@, old(buffer_data)@, data@),
        res is Err ==> final(buffer_data)@ == old(buffer_data)@,
        res is Ok ==> exists|p: Seq<u8>| #[trigger] prepared_key_layout(p, old(buffer_data)@.subrange(86, 1398))
            && final(buffer_data)@ == spliced(spliced(old(buffer_data)@, 86, p), 84, spec_u16_to_le_bytes(5472)),
        res is Ok ==> key_buffer_wf(final(buffer_data)@),
        res is Ok ==> key_buffer_sound(final(buffer_data)@),
{
    if data.len() != 0 {
        return Err(PqQuorumAuthError::InvalidInstructionData.into_failure());
    }
    if accounts.len() < 3 {
        return Err(ProgramFailure::NotEnoughAccountKeys);
    }
    if !accounts[0].is_signer {
        return Err(ProgramFailure::MissingRequiredSignature);
    }
    if !accounts[2].is_writable {
        return Err(ProgramFailure::InvalidAccountData);
    }
    if !keys_eq(&accounts[1].owner, program_id) || !keys_eq(&accounts[2].owner, program_id) {
        return Err(PqQuorumAuthError::InvalidAccountOwner.into_failure());
    }
    match validate_quorum_authority(&accounts[0].key, quorum_data) {
        Err(e) => { return Err(e.into_failure()); },
        Ok(_) => {},
    }
    match validate_mldsa_buffer_header(program_id, &accounts[0].key, &accounts[1].key, 0, &accounts[2].key, buffer_data, true,
        PqQuorumAuthError::InvalidMldsaPublicKey) {
        Err(e) => { return Err(e.into_failure()); },
        Ok(_) => {},
    }
    match read_u16(buffer_data, 84) {
        Some(w) => if w as usize != MLDSA44_PUBLIC_KEY_LEN { return Err(PqQuorumAuthError::InvalidMldsaPublicKey.into_failure()); },
        None => { return Err(PqQuorumAuthError::InvalidMldsaPublicKey.into_failure()); },
    }
    let mut prepared: Vec<u8> = vec![0u8; MLDSA44_PREPARED_PUBLIC_KEY_LEN];
    let ok = prepare_mldsa44_public_key(&buffer_data[86..1398], prepared.as_mut_slice());
    if !ok {
        return Err(PqQuorumAuthError::InvalidMldsaPublicKey.into_failure());
    }
    let ghost old_data = buffer_data@;
    write_bytes(buffer_data, 86, prepared.as_slice());
    let w = u16_to_le_bytes(5472);
    write_bytes(buffer_data, 84, w.as_slice());
    proof {
        lemma_auto_spec_u16_to_from_le_bytes();
        let p = prepared@;
        let f = buffer_data@;
        assert(f.subrange(84, 86) =~= spec_u16_to_le_bytes(5472));
        assert(f.len() == 5558);
        assert forall|r: int| 0 <= r < 4 implies #[trigger] prepared_poly_within(f, 86 + 1376 + 1024 * r, -q(), 2 * q() - 1) by {
            assert(prepared_poly_within(p, 1376 + 1024 * r, -q(), 2 * q() - 1));
            assert forall|k: int| 0 <= k < 1024 implies #[trigger] f[86 + 1376 + 1024 * r + k] == p[1376 + 1024 * r + k] by {}
            lemma_coeffs_shift(f, 86 + 1376 + 1024 * r, p, 1376 + 1024 * r);
        }
        assert(prepared_key_layout(p, old_data.subrange(86, 1398)));
        assert(buffered_prepared_key(f) =~= p);
        assert(buffered_public_key(f) =~= old_data.subrange(86, 1398));
        assert(buffer_written(f) == 5472);
    }
    Ok(())
}

/// A quorum is registered only when the authority signs, authority and quorum are writable,
/// the Falcon program is executable, the system program is named, the four accounts are
/// distinct where they must be, the quorum is the canonical quorum address of the authority
/// and Falcon program with the bump in the instruction, the Falcon key is the authority's
/// Falcon key address and is owned by the Falcon program, and the quorum account is still an
/// empty system account.
pub proof fn law_register_quorum_requirements(program_id: Seq<u8>, accounts: Seq<AccountHeader>, quorum_data: Seq<u8>, data: Seq<u8>)
    ensures
        register_quorum_outcome(program_id, accounts, quorum_data, data) is Ok ==> {
            &&& data.len() == 34
            &&& accounts.len() >= 5
            &&& accounts[0].is_signer && accounts[0].is_writable && accounts[1].is_writable
            &&& accounts[3].executable
            &&& accounts[4].key@ == system_program_id()
            &&& accounts[1].key@ != accounts[0].key@ && accounts[1].key@ != accounts[2].key@ && accounts[1].key@ != accounts[3].key@
            &&& accounts[2].key@ != accounts[3].key@
            &&& pda_check(quorum_seeds(accounts[0].key@, accounts[3].key@), program_id, accounts[1].key@, data[0]) is Ok
            &&& falcon_key_pda_check(accounts[3].key@, accounts[0].key@, accounts[2].key@) is Ok
            &&& accounts[2].owner@ == accounts[3].key@
            &&& accounts[1].owner@ == system_program_id()
            &&& quorum_data.len() == 0
        },
{
}

/// A buffer is created only when the authority signs, authority and buffer are writable,
/// the system program is named, the quorum is the program's and belongs to the authority,
/// and the buffer is the canonical address of its seeds with the instruction's bump and is
/// still an empty system account; the Winternitz and ML-DSA signature buffers take their
/// seeds from the quorum nonce in the instruction, the key buffer from authority and quorum.
pub proof fn law_buffer_creation_requirements(program_id: Seq<u8>, accounts: Seq<AccountHeader>, quorum_data: Seq<u8>, buffer_data: Seq<u8>,
    data: Seq<u8>)
    ensures
        buffer_creation_check(program_id, accounts, quorum_data) is Ok ==> {
            &&& accounts.len() >= 4
            &&& accounts[0].is_signer && accounts[0].is_writable && accounts[2].is_writable
            &&& accounts[3].key@ == system_program_id()
            &&& accounts[1].owner@ == program_id
            &&& quorum_authority_check(accounts[0].key@, quorum_data)
        },
        init_winternitz_signature_outcome(program_id, accounts, quorum_data, buffer_data, data) is Ok ==> {
            &&& data.len() == 9
            &&& buffer_creation_check(program_id, accounts, quorum_data) is Ok
            &&& pda_check(nonce_seeds(WINTERNITZ_SIGNATURE_SEED@, accounts[0].key@, accounts[1].key@, spec_u64_from_le_bytes(data.subrange(1, 9))),
                program_id, accounts[2].key@, data[0]) is Ok
            &&& accounts[2].owner@ == system_program_id() && buffer_data.len() == 0
        },
        init_mldsa_public_key_outcome(program_id, accounts, quorum_data, buffer_data, data) is Ok ==> {
            &&& data.len() == 1
            &&& buffer_creation_check(program_id, accounts, quorum_data) is Ok
            &&& pda_check(key_buffer_seeds(accounts[0].key@, accounts[1].key@), program_id, accounts[2].key@, data[0]) is Ok
            &&& accounts[2].owner@ == system_program_id() && buffer_data.len() == 0
        },
        init_mldsa_signature_outcome(program_id, accounts, quorum_data, buffer_data, data) is Ok ==> {
            &&& data.len() == 9
            &&& buffer_creation_check(program_id, accounts, quorum_data) is Ok
            &&& pda_check(nonce_seeds(MLDSA_SIGNATURE_SEED@, accounts[0].key@, accounts[1].key@, spec_u64_from_le_bytes(data.subrange(1, 9))),
                program_id, accounts[2].key@, data[0]) is Ok
            &&& accounts[2].owner@ == system_program_id() && buffer_data.len() == 0
        },
{
}

/// A proof account is created only for an ML-DSA quorum mode, when the authority signs,
/// authority and proof account are writable, the system program is named, quorum and both
/// buffers are the program's, no account repeats, the quorum belongs to the authority, the
/// proof account is the per-nonce proof address with the instruction's bump, both buffers are
/// complete for that nonce, and the proof account is still an empty system account.
pub proof fn law_init_mldsa_proof_requirements(program_id: Seq<u8>, accounts: Seq<AccountHeader>, quorum_data: Seq<u8>, key_data: Seq<u8>,
    sig_data: Seq<u8>, proof_data: Seq<u8>, data: Seq<u8>)
    ensures
        init_mldsa_proof_outcome(program_id, accounts, quorum_data, key_data, sig_data, proof_data, data) is Ok ==> {
            let nonce = spec_u64_from_le_bytes(data.subrange(2, 10));
            &&& data.len() == 42
            &&& (data[1] == 5 || data[1] == 6)
            &&& accounts.len() >= 6
            &&& accounts[0].is_signer && accounts[0].is_writable && accounts[2].is_writable
            &&& accounts[5].key@ == system_program_id()
            &&& accounts[1].owner@ == program_id && accounts[3].owner@ == program_id && accounts[4].owner@ == program_id
            &&& keys_distinct(account_keys(accounts, 6))
            &&& quorum_authority_check(accounts[0].key@, quorum_data)
            &&& pda_check(nonce_seeds(MLDSA_PROOF_SEED@, accounts[0].key@, accounts[1].key@, nonce), program_id, accounts[2].key@, data[0]) is Ok
            &&& mldsa_buffers_check(program_id, accounts[0].key@, accounts[1].key@, nonce, accounts[3].key@, key_data, accounts[4].key@, sig_data) is Ok
            &&& accounts[2].owner@ == system_program_id() && proof_data.len() == 0
        },
{
}

/// An ML-DSA chunk is written only by the signing authority into a writable buffer of the
/// program that passes its checks (for the instruction's nonce, for a signature buffer), of a
/// quorum of the program belonging to the authority, starting where the written bytes end and
/// staying within the upload; a public key is finalized only once all its bytes are written.
pub proof fn law_mldsa_upload_requirements(program_id: Seq<u8>, accounts: Seq<AccountHeader>, quorum_data: Seq<u8>, d: Seq<u8>, data: Seq<u8>,
    is_key: bool)
    ensures
        write_mldsa_chunk_outcome(program_id, accounts, quorum_data, d, data, is_key) is Ok ==> {
            &&& data.len() > chunk_start(is_key)
            &&& accounts.len() >= 3
            &&& accounts[0].is_signer && accounts[2].is_writable
            &&& accounts[1].owner@ == program_id && accounts[2].owner@ == program_id
            &&& quorum_authority_check(accounts[0].key@, quorum_data)
            &&& mldsa_buffer_check(program_id, accounts[0].key@, accounts[1].key@, if is_key { 0 } else { spec_u64_from_le_bytes(data.subrange(0, 8)) },
                accounts[2].key@, d, is_key, upload_error(is_key)) is Ok
            &&& spec_u16_from_le_bytes(data.subrange(chunk_start(is_key) - 2, chunk_start(is_key))) == buffer_written(d)
            &&& buffer_written(d) + (data.len() - chunk_start(is_key)) <= upload_len(is_key)
        },
        finalize_mldsa_public_key_outcome(program_id, accounts, quorum_data, d, data) is Ok ==> {
            &&& data.len() == 0
            &&& accounts.len() >= 3
            &&& accounts[0].is_signer && accounts[2].is_writable
            &&& accounts[1].owner@ == program_id && accounts[2].owner@ == program_id
            &&& quorum_authority_check(accounts[0].key@, quorum_data)
            &&& mldsa_buffer_check(program_id, accounts[0].key@, accounts[1].key@, 0, accounts[2].key@, d, true,
                PqQuorumAuthError::InvalidMldsaPublicKey) is Ok
            &&& buffer_written(d) == MLDSA44_PUBLIC_KEY_LEN
        },
{
}

} // verus!
