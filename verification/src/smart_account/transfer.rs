//! The transfers out of a smart account. Each is split where the runtime has to act: the
//! checks produce a plan (the quorum program call, the token program call, the balances),
//! and once the calls returned the spend is recorded.
use vstd::prelude::*;
use vstd::bytes::{spec_u64_to_le_bytes, u64_to_le_bytes, lemma_auto_spec_u64_to_from_le_bytes};
use crate::digest::spec_sha256;
use crate::mldsa44::protocol::append_bytes;
use crate::runtime::{AccountHeader, ProgramFailure, keys_eq, read_u64, spliced};
use crate::quorum::state::{keys_distinct, reject_duplicate_runtime_accounts};
use crate::quorum::approve::{
    account_keys, collect_keys, u64_at, VERIFY_FALCON_WINTERNITZ_DATA_LEN, VERIFY_FALCON_MLDSA_DATA_LEN, VERIFY_WINTERNITZ_MLDSA_DATA_LEN,
};
use crate::smart_account::state::{
    PqSmartAccountError, sfail, smart_state_check, validate_smart_account_state, spend_count, sol_transfer_preimage, smart_transfer_domain,
    smart_transfer_hash, prepare_transfer_check, prepare_transfer, finish_transfer, SMART_TRANSFER_DOMAIN, SPEND_COUNT_OFFSET,
    read_falcon_buffer_outcome, read_falcon_signature_buffer, token_accounts_check, validate_classic_token_accounts, transfer_checked_ix,
    build_transfer_checked_ix, smart_token_transfer_domain, smart_token_transfer_hash, SmartTokenTransferHashInput, SMART_TOKEN_TRANSFER_DOMAIN,
    SPL_TRANSFER_TAG, SPL_TOKEN_PROGRAM_ID, MINT_LEN, TOKEN_ACCOUNT_LEN,
};

verus! {

pub const PQ_QUORUM_TAG_VERIFY_FALCON_WINTERNITZ: u8 = 1;
pub const PQ_QUORUM_TAG_VERIFY_FALCON_MLDSA_PROOF: u8 = 14;
pub const PQ_QUORUM_TAG_VERIFY_WINTERNITZ_MLDSA_PROOF: u8 = 15;

/// Instruction data lengths, after the tag byte.
pub const TRANSFER_FALCON_WINTERNITZ_DATA_LEN: usize = 731;
pub const TRANSFER_FALCON_MLDSA_PROOF_DATA_LEN: usize = 699;
pub const TRANSFER_FALCON_MLDSA_PROOF_BUFFERED_DATA_LEN: usize = 33;
pub const TRANSFER_WINTERNITZ_MLDSA_PROOF_DATA_LEN: usize = 57;
pub const TRANSFER_SPL_TOKEN_FALCON_WINTERNITZ_DATA_LEN: usize = 732;
pub const TRANSFER_SPL_TOKEN_FALCON_WINTERNITZ_BUFFERED_DATA_LEN: usize = 66;
pub const TRANSFER_SPL_TOKEN_FALCON_MLDSA_PROOF_BUFFERED_DATA_LEN: usize = 34;
pub const TRANSFER_SPL_TOKEN_WINTERNITZ_MLDSA_PROOF_DATA_LEN: usize = 58;

// ---------------------------------------------------------------------------------------
// The calls into the quorum program.

/// Instruction data of the quorum program's Falcon + Winternitz approval.
pub open spec fn quorum_falcon_winternitz_ix(cluster: u8, quorum_nonce: u64, falcon_nonce: u64, expires_slot: u64, action_domain: Seq<u8>,
    action_hash: Seq<u8>, next_root: Seq<u8>, falcon_signature: Seq<u8>) -> Seq<u8> {
    seq![PQ_QUORUM_TAG_VERIFY_FALCON_WINTERNITZ, cluster] + spec_u64_to_le_bytes(quorum_nonce) + spec_u64_to_le_bytes(falcon_nonce)
        + spec_u64_to_le_bytes(expires_slot) + action_domain + action_hash + next_root + falcon_signature
}

/// Builds the quorum program's Falcon + Winternitz approval call.
pub fn build_quorum_falcon_winternitz_ix(cluster: u8, quorum_nonce: u64, falcon_nonce: u64, expires_slot: u64, action_domain: &[u8],
    action_hash: &[u8], next_root: &[u8], falcon_signature: &[u8]) -> (out: Vec<u8>)
    ensures
        out@ == quorum_falcon_winternitz_ix(cluster, quorum_nonce, falcon_nonce, expires_slot, action_domain@, action_hash@, next_root@,
            falcon_signature@),
{
    let mut out: Vec<u8> = Vec::new();
    out.push(PQ_QUORUM_TAG_VERIFY_FALCON_WINTERNITZ);
    out.push(cluster);
    let q = u64_to_le_bytes(quorum_nonce);
    append_bytes(&mut out, q.as_slice());
    let f = u64_to_le_bytes(falcon_nonce);
    append_bytes(&mut out, f.as_slice());
    let e = u64_to_le_bytes(expires_slot);
    append_bytes(&mut out, e.as_slice());
    append_bytes(&mut out, action_domain);
    append_bytes(&mut out, action_hash);
    append_bytes(&mut out, next_root);
    append_bytes(&mut out, falcon_signature);
    proof {
        assert(out@ =~= quorum_falcon_winternitz_ix(cluster, quorum_nonce, falcon_nonce, expires_slot, action_domain@, action_hash@, next_root@,
            falcon_signature@));
    }
    out
}

/// Instruction data of the quorum program's Falcon + ML-DSA approval.
pub open spec fn quorum_falcon_mldsa_ix(cluster: u8, quorum_nonce: u64, falcon_nonce: u64, expires_slot: u64, action_domain: Seq<u8>,
    action_hash: Seq<u8>, falcon_signature: Seq<u8>) -> Seq<u8> {
    seq![PQ_QUORUM_TAG_VERIFY_FALCON_MLDSA_PROOF, cluster] + spec_u64_to_le_bytes(quorum_nonce) + spec_u64_to_le_bytes(falcon_nonce)
        + spec_u64_to_le_bytes(expires_slot) + action_domain + action_hash + falcon_signature
}

/// Builds the quorum program's Falcon + ML-DSA approval call.
pub fn build_quorum_falcon_mldsa_ix(cluster: u8, quorum_nonce: u64, falcon_nonce: u64, expires_slot: u64, action_domain: &[u8],
    action_hash: &[u8], falcon_signature: &[u8]) -> (out: Vec<u8>)
    ensures
        out@ == quorum_falcon_mldsa_ix(cluster, quorum_nonce, falcon_nonce, expires_slot, action_domain@, action_hash@, falcon_signature@),
{
    let mut out: Vec<u8> = Vec::new();
    out.push(PQ_QUORUM_TAG_VERIFY_FALCON_MLDSA_PROOF);
    out.push(cluster);
    let q = u64_to_le_bytes(quorum_nonce);
    append_bytes(&mut out, q.as_slice());
    let f = u64_to_le_bytes(falcon_nonce);
    append_bytes(&mut out, f.as_slice());
    let e = u64_to_le_bytes(expires_slot);
    append_bytes(&mut out, e.as_slice());
    append_bytes(&mut out, action_domain);
    append_bytes(&mut out, action_hash);
    append_bytes(&mut out, falcon_signature);
    proof {
        assert(out@ =~= quorum_falcon_mldsa_ix(cluster, quorum_nonce, falcon_nonce, expires_slot, action_domain@, action_hash@, falcon_signature@));
    }
    out
}

/// Instruction data of the quorum program's Winternitz + ML-DSA approval.
pub open spec fn quorum_winternitz_mldsa_ix(cluster: u8, quorum_nonce: u64, expires_slot: u64, action_domain: Seq<u8>, action_hash: Seq<u8>,
    next_root: Seq<u8>) -> Seq<u8> {
    seq![PQ_QUORUM_TAG_VERIFY_WINTERNITZ_MLDSA_PROOF, cluster] + spec_u64_to_le_bytes(quorum_nonce) + spec_u64_to_le_bytes(expires_slot)
        + action_domain + action_hash + next_root
}

/// Builds the quorum program's Winternitz + ML-DSA approval call.
pub fn build_quorum_winternitz_mldsa_ix(cluster: u8, quorum_nonce: u64, expires_slot: u64, action_domain: &[u8], action_hash: &[u8],
    next_root: &[u8]) -> (out: Vec<u8>)
    ensures
        out@ == quorum_winternitz_mldsa_ix(cluster, quorum_nonce, expires_slot, action_domain@, action_hash@, next_root@),
{
    let mut out: Vec<u8> = Vec::new();
    out.push(PQ_QUORUM_TAG_VERIFY_WINTERNITZ_MLDSA_PROOF);
    out.push(cluster);
    let q = u64_to_le_bytes(quorum_nonce);
    append_bytes(&mut out, q.as_slice());
    let e = u64_to_le_bytes(expires_slot);
    append_bytes(&mut out, e.as_slice());
    append_bytes(&mut out, action_domain);
    append_bytes(&mut out, action_hash);
    append_bytes(&mut out, next_root);
    proof {
        assert(out@ =~= quorum_winternitz_mldsa_ix(cluster, quorum_nonce, expires_slot, action_domain@, action_hash@, next_root@));
    }
    out
}

/// The quorum program reads back, at the offsets its approvals use, exactly the fields the
/// smart account sent: the call has the approval's tag and length, and its cluster, nonces,
/// expiry slot, action domain, action hash, next root and Falcon signature are the ones given.
pub proof fn law_quorum_calls_roundtrip(cluster: u8, quorum_nonce: u64, falcon_nonce: u64, expires_slot: u64, action_domain: Seq<u8>,
    action_hash: Seq<u8>, next_root: Seq<u8>, falcon_signature: Seq<u8>)
    requires
        action_domain.len() == 32,
        action_hash.len() == 32,
        next_root.len() == 32,
        falcon_signature.len() == 666,
    ensures
        ({
            let ix = quorum_falcon_winternitz_ix(cluster, quorum_nonce, falcon_nonce, expires_slot, action_domain, action_hash, next_root,
                falcon_signature);
            let d = ix.subrange(1, ix.len() as int);
            &&& ix[0] == PQ_QUORUM_TAG_VERIFY_FALCON_WINTERNITZ
            &&& d.len() == VERIFY_FALCON_WINTERNITZ_DATA_LEN
            &&& d[0] == cluster
            &&& u64_at(d, 1) == quorum_nonce
            &&& u64_at(d, 9) == falcon_nonce
            &&& u64_at(d, 17) == expires_slot
            &&& d.subrange(25, 57) == action_domain
            &&& d.subrange(57, 89) == action_hash
            &&& d.subrange(89, 121) == next_root
            &&& d.subrange(121, 787) == falcon_signature
        }),
        ({
            let ix = quorum_falcon_mldsa_ix(cluster, quorum_nonce, falcon_nonce, expires_slot, action_domain, action_hash, falcon_signature);
            let d = ix.subrange(1, ix.len() as int);
            &&& ix[0] == PQ_QUORUM_TAG_VERIFY_FALCON_MLDSA_PROOF
            &&& d.len() == VERIFY_FALCON_MLDSA_DATA_LEN
            &&& d[0] == cluster
            &&& u64_at(d, 1) == quorum_nonce
            &&& u64_at(d, 9) == falcon_nonce
            &&& u64_at(d, 17) == expires_slot
            &&& d.subrange(25, 57) == action_domain
            &&& d.subrange(57, 89) == action_hash
            &&& d.subrange(89, 755) == falcon_signature
        }),
        ({
            let ix = quorum_winternitz_mldsa_ix(cluster, quorum_nonce, expires_slot, action_domain, action_hash, next_root);
            let d = ix.subrange(1, ix.len() as int);
            &&& ix[0] == PQ_QUORUM_TAG_VERIFY_WINTERNITZ_MLDSA_PROOF
            &&& d.len() == VERIFY_WINTERNITZ_MLDSA_DATA_LEN
            &&& d[0] == cluster
            &&& u64_at(d, 1) == quorum_nonce
            &&& u64_at(d, 9) == expires_slot
            &&& d.subrange(17, 49) == action_domain
            &&& d.subrange(49, 81) == action_hash
            &&& d.subrange(81, 113) == next_root
        }),
{
    lemma_auto_spec_u64_to_from_le_bytes();
    let ix = quorum_falcon_winternitz_ix(cluster, quorum_nonce, falcon_nonce, expires_slot, action_domain, action_hash, next_root, falcon_signature);
    let d = ix.subrange(1, ix.len() as int);
    assert(d.subrange(1, 9) =~= spec_u64_to_le_bytes(quorum_nonce));
    assert(d.subrange(9, 17) =~= spec_u64_to_le_bytes(falcon_nonce));
    assert(d.subrange(17, 25) =~= spec_u64_to_le_bytes(expires_slot));
    assert(d.subrange(25, 57) =~= action_domain);
    assert(d.subrange(57, 89) =~= action_hash);
    assert(d.subrange(89, 121) =~= next_root);
    assert(d.subrange(121, 787) =~= falcon_signature);
    let ix = quorum_falcon_mldsa_ix(cluster, quorum_nonce, falcon_nonce, expires_slot, action_domain, action_hash, falcon_signature);
    let d = ix.subrange(1, ix.len() as int);
    assert(d.subrange(1, 9) =~= spec_u64_to_le_bytes(quorum_nonce));
    assert(d.subrange(9, 17) =~= spec_u64_to_le_bytes(falcon_nonce));
    assert(d.subrange(17, 25) =~= spec_u64_to_le_bytes(expires_slot));
    assert(d.subrange(25, 57) =~= action_domain);
    assert(d.subrange(57, 89) =~= action_hash);
    assert(d.subrange(89, 755) =~= falcon_signature);
    let ix = quorum_winternitz_mldsa_ix(cluster, quorum_nonce, expires_slot, action_domain, action_hash, next_root);
    let d = ix.subrange(1, ix.len() as int);
    assert(d.subrange(1, 9) =~= spec_u64_to_le_bytes(quorum_nonce));
    assert(d.subrange(9, 17) =~= spec_u64_to_le_bytes(expires_slot));
    assert(d.subrange(17, 49) =~= action_domain);
    assert(d.subrange(49, 81) =~= action_hash);
    assert(d.subrange(81, 113) =~= next_root);
}

// ---------------------------------------------------------------------------------------
// Checks shared by the transfers.

/// The checks of the programs and state a transfer runs against (accounts 0 and 1 are the
/// authority and the smart account; the others are given by position).
pub open spec fn transfer_accounts_check(program_id: Seq<u8>, accounts: Seq<AccountHeader>, smart_data: Seq<u8>, destination: int,
    pq_quorum_program: int, quorum: int, falcon_auth_program: int) -> Result<(), ProgramFailure> {
    if accounts[1].owner@ != program_id || accounts[quorum].owner@ != accounts[pq_quorum_program].key@ {
        Err(sfail(PqSmartAccountError::InvalidAccountOwner))
    } else if !accounts[pq_quorum_program].executable || !accounts[falcon_auth_program].executable {
        Err(sfail(PqSmartAccountError::InvalidQuorumProgram))
    } else {
        match smart_state_check(program_id, accounts[1].key@, smart_data, Some(accounts[0].key@),
            Some((accounts[pq_quorum_program].key@, accounts[quorum].key@))) {
            Err(e) => Err(sfail(e)),
            Ok(_) => if accounts[1].key@ == accounts[destination].key@ { Err(ProgramFailure::InvalidArgument) } else { Ok(()) },
        }
    }
}

/// Checks the smart account, the quorum and the two programs of a transfer.
pub fn validate_transfer_program_accounts(program_id: &[u8; 32], accounts: &[AccountHeader], smart_data: &[u8], destination: usize,
    pq_quorum_program: usize, quorum: usize, falcon_auth_program: usize) -> (res: Result<(), ProgramFailure>)
    requires
        2 <= accounts@.len(),
        destination < accounts@.len(),
        pq_quorum_program < accounts@.len(),
        quorum < accounts@.len(),
        falcon_auth_program < accounts@.len(),
    ensures
        res == transfer_accounts_check(program_id@, accounts@, smart_data@, destination as int, pq_quorum_program as int, quorum as int,
            falcon_auth_program as int),
{
    if !keys_eq(&accounts[1].owner, program_id) || !keys_eq(&accounts[quorum].owner, &accounts[pq_quorum_program].key) {
        return Err(PqSmartAccountError::InvalidAccountOwner.into_failure());
    }
    if !accounts[pq_quorum_program].executable || !accounts[falcon_auth_program].executable {
        return Err(PqSmartAccountError::InvalidQuorumProgram.into_failure());
    }
    match validate_smart_account_state(program_id, &accounts[1].key, smart_data, Some(&accounts[0].key),
        Some((&accounts[pq_quorum_program].key, &accounts[quorum].key))) {
        Err(e) => { return Err(e.into_failure()); },
        Ok(_) => {},
    }
    if keys_eq(&accounts[1].key, &accounts[destination].key) {
        return Err(ProgramFailure::InvalidArgument);
    }
    Ok(())
}

/// Refuses the first `n` accounts when one of them appears twice.
pub(crate) fn reject_duplicate_accounts(accounts: &[AccountHeader], n: usize) -> (res: Result<(), ProgramFailure>)
    requires
        n <= accounts@.len(),
    ensures
        res is Ok <==> keys_distinct(account_keys(accounts@, n as int)),
        res is Err ==> res == Err::<(), ProgramFailure>(ProgramFailure::InvalidArgument),
{
    let keys = collect_keys(accounts, n);
    reject_duplicate_runtime_accounts(keys.as_slice())
}

/// What a SOL transfer asks of the runtime: the quorum program call, then the balances; once
/// both are done the spend count read here is advanced.
pub struct SolTransferPlan {
    pub quorum_ix: Vec<u8>,
    pub spend_count: u64,
    pub remaining_lamports: u64,
    pub next_destination_lamports: u64,
    pub close_signature_buffer: bool,
}

/// Records a spend once the quorum approved it: the spend count moves from `count` to
/// `count + 1`.
pub fn record_spend(smart_data: &mut [u8], count: u64) -> (res: Result<(), PqSmartAccountError>)
    requires
        old(smart_data)@.len() == 116,
    ensures
        res is Ok <==> count < u64::MAX,
        res is Err ==> res == Err::<(), PqSmartAccountError>(PqSmartAccountError::ArithmeticOverflow) && final(smart_data)@ == old(smart_data)@,
        res is Ok ==> final(smart_data)@ == spliced(old(smart_data)@, 108, spec_u64_to_le_bytes((count + 1) as u64)),
{
    let next = match count.checked_add(1) {
        Some(n) => n,
        None => { return Err(PqSmartAccountError::ArithmeticOverflow); },
    };
    finish_transfer(smart_data, next);
    Ok(())
}

// ---------------------------------------------------------------------------------------
// SOL, Falcon + Winternitz.

/// Outcome of the checks of a SOL transfer approved by Falcon + Winternitz (accounts:
/// authority, smart account, destination, quorum program, quorum, Falcon key, Falcon
/// program, Winternitz signature), with the smart account's rent-exempt minimum.
pub open spec fn transfer_falcon_winternitz_outcome(program_id: Seq<u8>, accounts: Seq<AccountHeader>, smart_data: Seq<u8>, data: Seq<u8>,
    rent_minimum: u64) -> Result<(), ProgramFailure> {
    if data.len() != TRANSFER_FALCON_WINTERNITZ_DATA_LEN {
        Err(sfail(PqSmartAccountError::InvalidInstructionData))
    } else if accounts.len() < 8 {
        Err(ProgramFailure::NotEnoughAccountKeys)
    } else if !(accounts[0].is_writable && accounts[1].is_writable && accounts[2].is_writable && accounts[4].is_writable
        && accounts[5].is_writable && accounts[7].is_writable) {
        Err(ProgramFailure::InvalidAccountData)
    } else if accounts[1].owner@ != program_id || accounts[4].owner@ != accounts[3].key@ {
        Err(sfail(PqSmartAccountError::InvalidAccountOwner))
    } else if !accounts[3].executable || !accounts[6].executable {
        Err(sfail(PqSmartAccountError::InvalidQuorumProgram))
    } else if !keys_distinct(account_keys(accounts, 8)) {
        Err(ProgramFailure::InvalidArgument)
    } else if u64_at(data, 25) == 0 {
        Err(sfail(PqSmartAccountError::InvalidInstructionData))
    } else {
        match smart_state_check(program_id, accounts[1].key@, smart_data, Some(accounts[0].key@), Some((accounts[3].key@, accounts[4].key@))) {
            Err(e) => Err(sfail(e)),
            Ok(_) => if accounts[1].lamports < u64_at(data, 25) || accounts[1].lamports - u64_at(data, 25) < rent_minimum {
                Err(sfail(PqSmartAccountError::InsufficientSmartAccountFunds))
            } else if accounts[2].lamports + u64_at(data, 25) > u64::MAX {
                Err(sfail(PqSmartAccountError::ArithmeticOverflow))
            } else {
                Ok(())
            },
        }
    }
}

/// The SOL action the quorum approves: this account, authority, destination, amount and
/// spend count.
pub open spec fn sol_action_hash(program_id: Seq<u8>, accounts: Seq<AccountHeader>, smart_data: Seq<u8>, lamports: u64) -> Seq<u8> {
    spec_sha256(sol_transfer_preimage(program_id, accounts[1].key@, accounts[0].key@, accounts[2].key@, lamports, spend_count(smart_data)))
}

/// The quorum program call of a SOL transfer approved by Falcon + Winternitz.
pub open spec fn transfer_falcon_winternitz_call(program_id: Seq<u8>, accounts: Seq<AccountHeader>, smart_data: Seq<u8>, data: Seq<u8>) -> Seq<u8> {
    quorum_falcon_winternitz_ix(data[0], u64_at(data, 1), u64_at(data, 9), u64_at(data, 17), SMART_TRANSFER_DOMAIN@,
        sol_action_hash(program_id, accounts, smart_data, u64_at(data, 25)), data.subrange(33, 65), data.subrange(65, 731))
}

/// Checks a SOL transfer approved by Falcon + Winternitz and plans the quorum call and the
/// balances.
pub fn plan_transfer_falcon_winternitz(program_id: &[u8; 32], accounts: &[AccountHeader], smart_data: &[u8], data: &[u8], rent_minimum: u64)
    -> (res: Result<SolTransferPlan, ProgramFailure>)
    ensures
        res is Ok <==> transfer_falcon_winternitz_outcome(program_id@, accounts@, smart_data@, data@, rent_minimum) is Ok,
        res matches Err(e) ==> transfer_falcon_winternitz_outcome(program_id@, accounts@, smart_data@, data@, rent_minimum) == Err::<(), ProgramFailure>(e),
        res matches Ok(plan) ==> {
            &&& plan.quorum_ix@ == transfer_falcon_winternitz_call(program_id@, accounts@, smart_data@, data@)
            &&& plan.spend_count == spend_count(smart_data@)
            &&& plan.remaining_lamports == accounts@[1].lamports - u64_at(data@, 25)
            &&& plan.next_destination_lamports == accounts@[2].lamports + u64_at(data@, 25)
            &&& !plan.close_signature_buffer
        },
{
    if data.len() != TRANSFER_FALCON_WINTERNITZ_DATA_LEN {
        return Err(PqSmartAccountError::InvalidInstructionData.into_failure());
    }
    if accounts.len() < 8 {
        return Err(ProgramFailure::NotEnoughAccountKeys);
    }
    if !accounts[0].is_writable || !accounts[1].is_writable || !accounts[2].is_writable || !accounts[4].is_writable
        || !accounts[5].is_writable || !accounts[7].is_writable {
        return Err(ProgramFailure::InvalidAccountData);
    }
    if !keys_eq(&accounts[1].owner, program_id) || !keys_eq(&accounts[4].owner, &accounts[3].key) {
        return Err(PqSmartAccountError::InvalidAccountOwner.into_failure());
    }
    if !accounts[3].executable || !accounts[6].executable {
        return Err(PqSmartAccountError::InvalidQuorumProgram.into_failure());
    }
    match reject_duplicate_accounts(accounts, 8) {
        Err(e) => { return Err(e); },
        Ok(_) => {},
    }
    let cluster = data[0];
    let quorum_nonce = match read_u64(data, 1) { Some(v) => v, None => { return Err(PqSmartAccountError::InvalidInstructionData.into_failure()); } };
    let falcon_nonce = match read_u64(data, 9) { Some(v) => v, None => { return Err(PqSmartAccountError::InvalidInstructionData.into_failure()); } };
    let expires_slot = match read_u64(data, 17) { Some(v) => v, None => { return Err(PqSmartAccountError::InvalidInstructionData.into_failure()); } };
    let lamports = match read_u64(data, 25) { Some(v) => v, None => { return Err(PqSmartAccountError::InvalidInstructionData.into_failure()); } };
    if lamports == 0 {
        return Err(PqSmartAccountError::InvalidInstructionData.into_failure());
    }
    match validate_smart_account_state(program_id, &accounts[1].key, smart_data, Some(&accounts[0].key), Some((&accounts[3].key, &accounts[4].key))) {
        Err(e) => { return Err(e.into_failure()); },
        Ok(_) => {},
    }
    let count = match read_u64(smart_data, SPEND_COUNT_OFFSET) {
        Some(v) => v,
        None => { return Err(PqSmartAccountError::InvalidInstructionData.into_failure()); },
    };
    let action_domain = smart_transfer_domain();
    let action_hash = smart_transfer_hash(program_id, &accounts[1].key, &accounts[0].key, &accounts[2].key, lamports, count);
    let remaining = match accounts[1].lamports.checked_sub(lamports) {
        Some(r) => r,
        None => { return Err(PqSmartAccountError::InsufficientSmartAccountFunds.into_failure()); },
    };
    if remaining < rent_minimum {
        return Err(PqSmartAccountError::InsufficientSmartAccountFunds.into_failure());
    }
    let next_destination = match accounts[2].lamports.checked_add(lamports) {
        Some(n) => n,
        None => { return Err(PqSmartAccountError::ArithmeticOverflow.into_failure()); },
    };
    let ix = build_quorum_falcon_winternitz_ix(cluster, quorum_nonce, falcon_nonce, expires_slot, action_domain.as_slice(), action_hash.as_slice(),
        &data[33..65], &data[65..731]);
    Ok(SolTransferPlan { quorum_ix: ix, spend_count: count, remaining_lamports: remaining, next_destination_lamports: next_destination,
        close_signature_buffer: false })
}

// ---------------------------------------------------------------------------------------
// SOL, Falcon + ML-DSA, with the Falcon signature in the instruction or in a buffer, and
// SOL, Winternitz + ML-DSA.

/// Outcome of the checks of a SOL transfer approved by Falcon + ML-DSA (accounts: authority,
/// smart account, destination, quorum program, quorum, Falcon key, Falcon program, ML-DSA key
/// buffer, signature buffer, proof).
pub open spec fn transfer_falcon_mldsa_outcome(program_id: Seq<u8>, accounts: Seq<AccountHeader>, smart_data: Seq<u8>, data: Seq<u8>,
    rent_minimum: u64) -> Result<(), ProgramFailure> {
    if data.len() != TRANSFER_FALCON_MLDSA_PROOF_DATA_LEN {
        Err(sfail(PqSmartAccountError::InvalidInstructionData))
    } else if accounts.len() < 10 {
        Err(ProgramFailure::NotEnoughAccountKeys)
    } else if !(accounts[0].is_writable && accounts[1].is_writable && accounts[2].is_writable && accounts[4].is_writable
        && accounts[5].is_writable && accounts[8].is_writable && accounts[9].is_writable) {
        Err(ProgramFailure::InvalidAccountData)
    } else {
        match transfer_accounts_check(program_id, accounts, smart_data, 2, 3, 4, 6) {
            Err(e) => Err(e),
            Ok(_) => if !keys_distinct(account_keys(accounts, 10)) {
                Err(ProgramFailure::InvalidArgument)
            } else {
                match prepare_transfer_check(smart_data, u64_at(data, 25), accounts[1].lamports, accounts[2].lamports, rent_minimum) {
                    Err(e) => Err(sfail(e)),
                    Ok(_) => Ok(()),
                }
            },
        }
    }
}

/// The quorum program call of a SOL transfer approved by Falcon + ML-DSA.
pub open spec fn transfer_falcon_mldsa_call(program_id: Seq<u8>, accounts: Seq<AccountHeader>, smart_data: Seq<u8>, data: Seq<u8>) -> Seq<u8> {
    quorum_falcon_mldsa_ix(data[0], u64_at(data, 1), u64_at(data, 9), u64_at(data, 17), SMART_TRANSFER_DOMAIN@,
        sol_action_hash(program_id, accounts, smart_data, u64_at(data, 25)), data.subrange(33, 699))
}

/// Checks a SOL transfer approved by Falcon + ML-DSA and plans the quorum call and the
/// balances.
pub fn plan_transfer_falcon_mldsa_proof(program_id: &[u8; 32], accounts: &[AccountHeader], smart_data: &[u8], data: &[u8], rent_minimum: u64)
    -> (res: Result<SolTransferPlan, ProgramFailure>)
    ensures
        res is Ok <==> transfer_falcon_mldsa_outcome(program_id@, accounts@, smart_data@, data@, rent_minimum) is Ok,
        res matches Err(e) ==> transfer_falcon_mldsa_outcome(program_id@, accounts@, smart_data@, data@, rent_minimum) == Err::<(), ProgramFailure>(e),
        res matches Ok(plan) ==> {
            &&& plan.quorum_ix@ == transfer_falcon_mldsa_call(program_id@, accounts@, smart_data@, data@)
            &&& plan.spend_count == spend_count(smart_data@)
            &&& plan.spend_count < u64::MAX
            &&& plan.remaining_lamports == accounts@[1].lamports - u64_at(data@, 25)
            &&& plan.next_destination_lamports == accounts@[2].lamports + u64_at(data@, 25)
            &&& !plan.close_signature_buffer
        },
{
    if data.len() != TRANSFER_FALCON_MLDSA_PROOF_DATA_LEN {
        return Err(PqSmartAccountError::InvalidInstructionData.into_failure());
    }
    if accounts.len() < 10 {
        return Err(ProgramFailure::NotEnoughAccountKeys);
    }
    if !accounts[0].is_writable || !accounts[1].is_writable || !accounts[2].is_writable || !accounts[4].is_writable
        || !accounts[5].is_writable || !accounts[8].is_writable || !accounts[9].is_writable {
        return Err(ProgramFailure::InvalidAccountData);
    }
    match validate_transfer_program_accounts(program_id, accounts, smart_data, 2, 3, 4, 6) {
        Err(e) => { return Err(e); },
        Ok(_) => {},
    }
    match reject_duplicate_accounts(accounts, 10) {
        Err(e) => { return Err(e); },
        Ok(_) => {},
    }
    let cluster = data[0];
    let quorum_nonce = match read_u64(data, 1) { Some(v) => v, None => { return Err(PqSmartAccountError::InvalidInstructionData.into_failure()); } };
    let falcon_nonce = match read_u64(data, 9) { Some(v) => v, None => { return Err(PqSmartAccountError::InvalidInstructionData.into_failure()); } };
    let expires_slot = match read_u64(data, 17) { Some(v) => v, None => { return Err(PqSmartAccountError::InvalidInstructionData.into_failure()); } };
    let lamports = match read_u64(data, 25) { Some(v) => v, None => { return Err(PqSmartAccountError::InvalidInstructionData.into_failure()); } };
    let t = match prepare_transfer(program_id, &accounts[0].key, &accounts[1].key, &accounts[2].key, smart_data, lamports, accounts[1].lamports,
        accounts[2].lamports, rent_minimum) {
        Err(e) => { return Err(e.into_failure()); },
        Ok(t) => t,
    };
    let ix = build_quorum_falcon_mldsa_ix(cluster, quorum_nonce, falcon_nonce, expires_slot, t.action_domain.as_slice(), t.action_hash.as_slice(),
        &data[33..699]);
    Ok(SolTransferPlan { quorum_ix: ix, spend_count: (t.next_spend_count - 1) as u64, remaining_lamports: t.remaining_lamports,
        next_destination_lamports: t.next_destination_lamports, close_signature_buffer: false })
}

/// Outcome of the checks of a SOL transfer approved by Falcon + ML-DSA with the Falcon
/// signature in a buffer (accounts as for the unbuffered transfer, then the buffer).
pub open spec fn transfer_falcon_mldsa_buffered_outcome(program_id: Seq<u8>, accounts: Seq<AccountHeader>, smart_data: Seq<u8>, buffer_data: Seq<u8>,
    data: Seq<u8>, rent_minimum: u64) -> Result<(), ProgramFailure> {
    if data.len() != TRANSFER_FALCON_MLDSA_PROOF_BUFFERED_DATA_LEN {
        Err(sfail(PqSmartAccountError::InvalidInstructionData))
    } else if accounts.len() < 11 {
        Err(ProgramFailure::NotEnoughAccountKeys)
    } else if !(accounts[0].is_writable && accounts[1].is_writable && accounts[2].is_writable && accounts[4].is_writable
        && accounts[5].is_writable && accounts[8].is_writable && accounts[9].is_writable && accounts[10].is_writable) {
        Err(ProgramFailure::InvalidAccountData)
    } else {
        match transfer_accounts_check(program_id, accounts, smart_data, 2, 3, 4, 6) {
            Err(e) => Err(e),
            Ok(_) => if accounts[10].owner@ != program_id {
                Err(sfail(PqSmartAccountError::InvalidAccountOwner))
            } else if !keys_distinct(account_keys(accounts, 11)) {
                Err(ProgramFailure::InvalidArgument)
            } else {
                match read_falcon_buffer_outcome(program_id, accounts[10].key@, buffer_data, accounts[0].key@, accounts[1].key@, accounts[4].key@,
                    u64_at(data, 1)) {
                    Err(e) => Err(sfail(e)),
                    Ok(_) => match prepare_transfer_check(smart_data, u64_at(data, 25), accounts[1].lamports, accounts[2].lamports, rent_minimum) {
                        Err(e) => Err(sfail(e)),
                        Ok(_) => Ok(()),
                    },
                }
            },
        }
    }
}

/// The quorum program call of a buffered SOL transfer approved by Falcon + ML-DSA: the
/// signature is the buffer's payload.
pub open spec fn transfer_falcon_mldsa_buffered_call(program_id: Seq<u8>, accounts: Seq<AccountHeader>, smart_data: Seq<u8>, buffer_data: Seq<u8>,
    data: Seq<u8>) -> Seq<u8> {
    quorum_falcon_mldsa_ix(data[0], u64_at(data, 1), u64_at(data, 9), u64_at(data, 17), SMART_TRANSFER_DOMAIN@,
        sol_action_hash(program_id, accounts, smart_data, u64_at(data, 25)), buffer_data.subrange(118, 784))
}

/// Checks a buffered SOL transfer approved by Falcon + ML-DSA and plans the quorum call, the
/// closing of the buffer and the balances.
pub fn plan_transfer_falcon_mldsa_proof_buffered(program_id: &[u8; 32], accounts: &[AccountHeader], smart_data: &[u8], buffer_data: &[u8],
    data: &[u8], rent_minimum: u64) -> (res: Result<SolTransferPlan, ProgramFailure>)
    ensures
        res is Ok <==> transfer_falcon_mldsa_buffered_outcome(program_id@, accounts@, smart_data@, buffer_data@, data@, rent_minimum) is Ok,
        res matches Err(e) ==> transfer_falcon_mldsa_buffered_outcome(program_id@, accounts@, smart_data@, buffer_data@, data@, rent_minimum)
            == Err::<(), ProgramFailure>(e),
        res matches Ok(plan) ==> {
            &&& plan.quorum_ix@ == transfer_falcon_mldsa_buffered_call(program_id@, accounts@, smart_data@, buffer_data@, data@)
            &&& plan.spend_count == spend_count(smart_data@)
            &&& plan.spend_count < u64::MAX
            &&& plan.remaining_lamports == accounts@[1].lamports - u64_at(data@, 25)
            &&& plan.next_destination_lamports == accounts@[2].lamports + u64_at(data@, 25)
            &&& plan.close_signature_buffer
        },
{
    if data.len() != TRANSFER_FALCON_MLDSA_PROOF_BUFFERED_DATA_LEN {
        return Err(PqSmartAccountError::InvalidInstructionData.into_failure());
    }
    if accounts.len() < 11 {
        return Err(ProgramFailure::NotEnoughAccountKeys);
    }
    if !accounts[0].is_writable || !accounts[1].is_writable || !accounts[2].is_writable || !accounts[4].is_writable
        || !accounts[5].is_writable || !accounts[8].is_writable || !accounts[9].is_writable || !accounts[10].is_writable {
        return Err(ProgramFailure::InvalidAccountData);
    }
    match validate_transfer_program_accounts(program_id, accounts, smart_data, 2, 3, 4, 6) {
        Err(e) => { return Err(e); },
        Ok(_) => {},
    }
    if !keys_eq(&accounts[10].owner, program_id) {
        return Err(PqSmartAccountError::InvalidAccountOwner.into_failure());
    }
    match reject_duplicate_accounts(accounts, 11) {
        Err(e) => { return Err(e); },
        Ok(_) => {},
    }
    let cluster = data[0];
    let quorum_nonce = match read_u64(data, 1) { Some(v) => v, None => { return Err(PqSmartAccountError::InvalidInstructionData.into_failure()); } };
    let falcon_nonce = match read_u64(data, 9) { Some(v) => v, None => { return Err(PqSmartAccountError::InvalidInstructionData.into_failure()); } };
    let expires_slot = match read_u64(data, 17) { Some(v) => v, None => { return Err(PqSmartAccountError::InvalidInstructionData.into_failure()); } };
    let lamports = match read_u64(data, 25) { Some(v) => v, None => { return Err(PqSmartAccountError::InvalidInstructionData.into_failure()); } };
    let signature = match read_falcon_signature_buffer(program_id, &accounts[10].key, buffer_data, &accounts[0].key, &accounts[1].key,
        &accounts[4].key, quorum_nonce) {
        Err(e) => { return Err(e.into_failure()); },
        Ok(s) => s,
    };
    let t = match prepare_transfer(program_id, &accounts[0].key, &accounts[1].key, &accounts[2].key, smart_data, lamports, accounts[1].lamports,
        accounts[2].lamports, rent_minimum) {
        Err(e) => { return Err(e.into_failure()); },
        Ok(t) => t,
    };
    let ix = build_quorum_falcon_mldsa_ix(cluster, quorum_nonce, falcon_nonce, expires_slot, t.action_domain.as_slice(), t.action_hash.as_slice(),
        signature.as_slice());
    Ok(SolTransferPlan { quorum_ix: ix, spend_count: (t.next_spend_count - 1) as u64, remaining_lamports: t.remaining_lamports,
        next_destination_lamports: t.next_destination_lamports, close_signature_buffer: true })
}

/// Outcome of the checks of a SOL transfer approved by Winternitz + ML-DSA (accounts:
/// authority, smart account, destination, quorum program, quorum, Falcon key, Falcon
/// program, Winternitz signature, ML-DSA key buffer, signature buffer, proof).
pub open spec fn transfer_winternitz_mldsa_outcome(program_id: Seq<u8>, accounts: Seq<AccountHeader>, smart_data: Seq<u8>, data: Seq<u8>,
    rent_minimum: u64) -> Result<(), ProgramFailure> {
    if data.len() != TRANSFER_WINTERNITZ_MLDSA_PROOF_DATA_LEN {
        Err(sfail(PqSmartAccountError::InvalidInstructionData))
    } else if accounts.len() < 11 {
        Err(ProgramFailure::NotEnoughAccountKeys)
    } else if !(accounts[0].is_writable && accounts[1].is_writable && accounts[2].is_writable && accounts[4].is_writable
        && accounts[7].is_writable && accounts[9].is_writable && accounts[10].is_writable) {
        Err(ProgramFailure::InvalidAccountData)
    } else {
        match transfer_accounts_check(program_id, accounts, smart_data, 2, 3, 4, 6) {
            Err(e) => Err(e),
            Ok(_) => if !keys_distinct(account_keys(accounts, 11)) {
                Err(ProgramFailure::InvalidArgument)
            } else {
                match prepare_transfer_check(smart_data, u64_at(data, 17), accounts[1].lamports, accounts[2].lamports, rent_minimum) {
                    Err(e) => Err(sfail(e)),
                    Ok(_) => Ok(()),
                }
            },
        }
    }
}

/// The quorum program call of a SOL transfer approved by Winternitz + ML-DSA.
pub open spec fn transfer_winternitz_mldsa_call(program_id: Seq<u8>, accounts: Seq<AccountHeader>, smart_data: Seq<u8>, data: Seq<u8>) -> Seq<u8> {
    quorum_winternitz_mldsa_ix(data[0], u64_at(data, 1), u64_at(data, 9), SMART_TRANSFER_DOMAIN@,
        sol_action_hash(program_id, accounts, smart_data, u64_at(data, 17)), data.subrange(25, 57))
}

/// Checks a SOL transfer approved by Winternitz + ML-DSA and plans the quorum call and the
/// balances.
pub fn plan_transfer_winternitz_mldsa_proof(program_id: &[u8; 32], accounts: &[AccountHeader], smart_data: &[u8], data: &[u8], rent_minimum: u64)
    -> (res: Result<SolTransferPlan, ProgramFailure>)
    ensures
        res is Ok <==> transfer_winternitz_mldsa_outcome(program_id@, accounts@, smart_data@, data@, rent_minimum) is Ok,
        res matches Err(e) ==> transfer_winternitz_mldsa_outcome(program_id@, accounts@, smart_data@, data@, rent_minimum) == Err::<(), ProgramFailure>(e),
        res matches Ok(plan) ==> {
            &&& plan.quorum_ix@ == transfer_winternitz_mldsa_call(program_id@, accounts@, smart_data@, data@)
            &&& plan.spend_count == spend_count(smart_data@)
            &&& plan.spend_count < u64::MAX
            &&& plan.remaining_lamports == accounts@[1].lamports - u64_at(data@, 17)
            &&& plan.next_destination_lamports == accounts@[2].lamports + u64_at(data@, 17)
            &&& !plan.close_signature_buffer
        },
{
    if data.len() != TRANSFER_WINTERNITZ_MLDSA_PROOF_DATA_LEN {
        return Err(PqSmartAccountError::InvalidInstructionData.into_failure());
    }
    if accounts.len() < 11 {
        return Err(ProgramFailure::NotEnoughAccountKeys);
    }
    if !accounts[0].is_writable || !accounts[1].is_writable || !accounts[2].is_writable || !accounts[4].is_writable
        || !accounts[7].is_writable || !accounts[9].is_writable || !accounts[10].is_writable {
        return Err(ProgramFailure::InvalidAccountData);
    }
    match validate_transfer_program_accounts(program_id, accounts, smart_data, 2, 3, 4, 6) {
        Err(e) => { return Err(e); },
        Ok(_) => {},
    }
    match reject_duplicate_accounts(accounts, 11) {
        Err(e) => { return Err(e); },
        Ok(_) => {},
    }
    let cluster = data[0];
    let quorum_nonce = match read_u64(data, 1) { Some(v) => v, None => { return Err(PqSmartAccountError::InvalidInstructionData.into_failure()); } };
    let expires_slot = match read_u64(data, 9) { Some(v) => v, None => { return Err(PqSmartAccountError::InvalidInstructionData.into_failure()); } };
    let lamports = match read_u64(data, 17) { Some(v) => v, None => { return Err(PqSmartAccountError::InvalidInstructionData.into_failure()); } };
    let t = match prepare_transfer(program_id, &accounts[0].key, &accounts[1].key, &accounts[2].key, smart_data, lamports, accounts[1].lamports,
        accounts[2].lamports, rent_minimum) {
        Err(e) => { return Err(e.into_failure()); },
        Ok(t) => t,
    };
    let ix = build_quorum_winternitz_mldsa_ix(cluster, quorum_nonce, expires_slot, t.action_domain.as_slice(), t.action_hash.as_slice(),
        &data[25..57]);
    Ok(SolTransferPlan { quorum_ix: ix, spend_count: (t.next_spend_count - 1) as u64, remaining_lamports: t.remaining_lamports,
        next_destination_lamports: t.next_destination_lamports, close_signature_buffer: false })
}

// ---------------------------------------------------------------------------------------
// SPL token transfers.

/// The preimage of an SPL transfer's action hash, over the keys it names.
pub open spec fn spl_transfer_preimage(program_id: Seq<u8>, smart_account: Seq<u8>, authority: Seq<u8>, token_program: Seq<u8>, source_token: Seq<u8>,
    mint: Seq<u8>, destination_token: Seq<u8>, amount: u64, decimals: u8, spend_count: u64) -> Seq<u8> {
    SPL_TRANSFER_TAG@ + program_id + smart_account + authority + token_program + source_token + mint + destination_token
        + spec_u64_to_le_bytes(amount) + seq![decimals] + spec_u64_to_le_bytes(spend_count)
}

/// The SPL action the quorum approves (accounts: authority, smart account, token program,
/// source, mint, destination).
pub open spec fn token_action_hash(program_id: Seq<u8>, accounts: Seq<AccountHeader>, smart_data: Seq<u8>, amount: u64, decimals: u8) -> Seq<u8> {
    spec_sha256(spl_transfer_preimage(program_id, accounts[1].key@, accounts[0].key@, accounts[2].key@, accounts[3].key@, accounts[4].key@,
        accounts[5].key@, amount, decimals, spend_count(smart_data)))
}

/// The token program must be the classic SPL token program, and it must own the source,
/// the mint and the destination.
pub open spec fn token_program_check(accounts: Seq<AccountHeader>) -> Result<(), ProgramFailure> {
    if accounts[2].key@ != SPL_TOKEN_PROGRAM_ID@ || !accounts[2].executable {
        Err(sfail(PqSmartAccountError::InvalidTokenProgram))
    } else if accounts[3].owner@ != accounts[2].key@ || accounts[4].owner@ != accounts[2].key@ || accounts[5].owner@ != accounts[2].key@ {
        Err(sfail(PqSmartAccountError::InvalidAccountOwner))
    } else {
        Ok(())
    }
}

fn check_token_program(accounts: &[AccountHeader]) -> (res: Result<(), ProgramFailure>)
    requires
        6 <= accounts@.len(),
    ensures
        res == token_program_check(accounts@),
{
    let program = SPL_TOKEN_PROGRAM_ID;
    if !keys_eq(&accounts[2].key, &program) || !accounts[2].executable {
        return Err(PqSmartAccountError::InvalidTokenProgram.into_failure());
    }
    if !keys_eq(&accounts[3].owner, &accounts[2].key) || !keys_eq(&accounts[4].owner, &accounts[2].key) || !keys_eq(&accounts[5].owner, &accounts[2].key) {
        return Err(PqSmartAccountError::InvalidAccountOwner.into_failure());
    }
    Ok(())
}

/// The checks of an SPL transfer's amount against the token accounts and the spend count.
pub open spec fn prepare_token_check(smart_data: Seq<u8>, smart_account: Seq<u8>, mint: Seq<u8>, mint_data: Seq<u8>, source_data: Seq<u8>,
    destination_data: Seq<u8>, amount: u64, decimals: u8) -> Result<(), PqSmartAccountError> {
    if smart_data.len() < 116 {
        Err(PqSmartAccountError::InvalidInstructionData)
    } else if !token_accounts_check(smart_account, mint, mint_data, source_data, destination_data, amount, decimals) {
        Err(PqSmartAccountError::InvalidTokenAccount)
    } else if spend_count(smart_data) == u64::MAX {
        Err(PqSmartAccountError::ArithmeticOverflow)
    } else {
        Ok(())
    }
}

/// What an SPL transfer needs after its checks: the smart account's signer seeds, the spend
/// count, and the action the quorum must approve.
pub struct PreparedTokenTransfer {
    pub spend_count: u64,
    pub smart_bump: u8,
    pub authority: [u8; 32],
    pub pq_quorum_program: [u8; 32],
    pub quorum: [u8; 32],
    pub action_domain: [u8; 32],
    pub action_hash: [u8; 32],
}

/// Prepares an SPL transfer (accounts: authority, smart account, token program, source, mint,
/// destination).
pub fn prepare_token_transfer(program_id: &[u8; 32], accounts: &[AccountHeader], smart_data: &[u8], mint_data: &[u8], source_data: &[u8],
    destination_data: &[u8], amount: u64, decimals: u8) -> (res: Result<PreparedTokenTransfer, PqSmartAccountError>)
    requires
        6 <= accounts@.len(),
    ensures
        match res {
            Ok(t) => {
                &&& prepare_token_check(smart_data@, accounts@[1].key@, accounts@[4].key@, mint_data@, source_data@, destination_data@, amount,
                    decimals) is Ok
                &&& t.spend_count == spend_count(smart_data@)
                &&& t.smart_bump == smart_data@[9]
                &&& t.authority@ == smart_data@.subrange(12, 44)
                &&& t.pq_quorum_program@ == smart_data@.subrange(44, 76)
                &&& t.quorum@ == smart_data@.subrange(76, 108)
                &&& t.action_domain@ == SMART_TOKEN_TRANSFER_DOMAIN@
                &&& t.action_hash@ == token_action_hash(program_id@, accounts@, smart_data@, amount, decimals)
            },
            Err(e) => prepare_token_check(smart_data@, accounts@[1].key@, accounts@[4].key@, mint_data@, source_data@, destination_data@, amount,
                decimals) == Err::<(), PqSmartAccountError>(e),
        },
{
    if smart_data.len() < 116 {
        return Err(PqSmartAccountError::InvalidInstructionData);
    }
    let count = match read_u64(smart_data, SPEND_COUNT_OFFSET) { Some(v) => v, None => { return Err(PqSmartAccountError::InvalidInstructionData); } };
    let mut authority = [0u8; 32];
    let mut pq_quorum_program = [0u8; 32];
    let mut quorum = [0u8; 32];
    copy_key(&mut authority, smart_data, 12);
    copy_key(&mut pq_quorum_program, smart_data, 44);
    copy_key(&mut quorum, smart_data, 76);
    validate_classic_token_accounts(&accounts[1].key, &accounts[4].key, mint_data, source_data, destination_data, amount, decimals)?;
    if count == u64::MAX {
        return Err(PqSmartAccountError::ArithmeticOverflow);
    }
    let action_domain = smart_token_transfer_domain();
    let input = SmartTokenTransferHashInput {
        program_id: *program_id,
        smart_account: accounts[1].key,
        authority: accounts[0].key,
        token_program: accounts[2].key,
        source_token: accounts[3].key,
        mint: accounts[4].key,
        destination_token: accounts[5].key,
        amount,
        decimals,
        spend_count: count,
    };
    let action_hash = smart_token_transfer_hash(input);
    Ok(PreparedTokenTransfer { spend_count: count, smart_bump: smart_data[9], authority, pq_quorum_program, quorum, action_domain, action_hash })
}

/// Copies the 32 bytes of `data` at `at` into `key`.
fn copy_key(key: &mut [u8; 32], data: &[u8], at: usize)
    requires
        at + 32 <= data@.len(),
    ensures
        final(key)@ == data@.subrange(at as int, at + 32),
{
    let n = data.len();
    let mut i: usize = 0;
    while i < 32
        invariant
            n == data@.len(),
            at + 32 <= data@.len(),
            i <= 32,
            forall|j: int| 0 <= j < i ==> key@[j] == data@[at + j],
        decreases 32 - i,
    {
        key[i] = data[at + i];
        i += 1;
    }
    proof {
        assert(key@ =~= data@.subrange(at as int, at + 32));
    }
}

/// What an SPL transfer asks of the runtime: the quorum program call, then the token
/// program's `TransferChecked` signed by the smart account; once both are done the spend
/// count read here is advanced.
pub struct TokenTransferPlan {
    pub quorum_ix: Vec<u8>,
    pub token_ix: Vec<u8>,
    pub smart_bump: u8,
    pub authority: [u8; 32],
    pub pq_quorum_program: [u8; 32],
    pub quorum: [u8; 32],
    pub spend_count: u64,
    pub close_signature_buffer: bool,
}

/// What every SPL plan states of the token call and the smart account's signer seeds.
pub open spec fn token_plan_fields(plan: TokenTransferPlan, smart_data: Seq<u8>, amount: u64, decimals: u8) -> bool {
    &&& plan.token_ix@ == transfer_checked_ix(amount, decimals)
    &&& plan.smart_bump == smart_data[9]
    &&& plan.authority@ == smart_data.subrange(12, 44)
    &&& plan.pq_quorum_program@ == smart_data.subrange(44, 76)
    &&& plan.quorum@ == smart_data.subrange(76, 108)
    &&& plan.spend_count == spend_count(smart_data)
    &&& plan.spend_count < u64::MAX
}

fn token_plan(t: PreparedTokenTransfer, quorum_ix: Vec<u8>, amount: u64, decimals: u8, close_signature_buffer: bool) -> (plan: TokenTransferPlan)
    ensures
        plan.quorum_ix@ == quorum_ix@,
        plan.token_ix@ == transfer_checked_ix(amount, decimals),
        plan.smart_bump == t.smart_bump,
        plan.authority@ == t.authority@,
        plan.pq_quorum_program@ == t.pq_quorum_program@,
        plan.quorum@ == t.quorum@,
        plan.spend_count == t.spend_count,
        plan.close_signature_buffer == close_signature_buffer,
{
    let token_ix = build_transfer_checked_ix(amount, decimals);
    TokenTransferPlan { quorum_ix, token_ix, smart_bump: t.smart_bump, authority: t.authority, pq_quorum_program: t.pq_quorum_program,
        quorum: t.quorum, spend_count: t.spend_count, close_signature_buffer }
}

/// Outcome of the checks of an SPL transfer approved by Falcon + Winternitz (accounts:
/// authority, smart account, token program, source, mint, destination, quorum program,
/// quorum, Falcon key, Falcon program, Winternitz signature).
pub open spec fn transfer_spl_falcon_winternitz_outcome(program_id: Seq<u8>, accounts: Seq<AccountHeader>, smart_data: Seq<u8>, mint_data: Seq<u8>,
    source_data: Seq<u8>, destination_data: Seq<u8>, data: Seq<u8>) -> Result<(), ProgramFailure> {
    if data.len() != TRANSFER_SPL_TOKEN_FALCON_WINTERNITZ_DATA_LEN {
        Err(sfail(PqSmartAccountError::InvalidInstructionData))
    } else if accounts.len() < 11 {
        Err(ProgramFailure::NotEnoughAccountKeys)
    } else if !(accounts[0].is_writable && accounts[1].is_writable && accounts[3].is_writable && accounts[5].is_writable
        && accounts[7].is_writable && accounts[8].is_writable && accounts[10].is_writable) {
        Err(ProgramFailure::InvalidAccountData)
    } else {
        match token_program_check(accounts) {
            Err(e) => Err(e),
            Ok(_) => match transfer_accounts_check(program_id, accounts, smart_data, 5, 6, 7, 9) {
                Err(e) => Err(e),
                Ok(_) => if !keys_distinct(account_keys(accounts, 11)) {
                    Err(ProgramFailure::InvalidArgument)
                } else if u64_at(data, 25) == 0 {
                    Err(sfail(PqSmartAccountError::InvalidInstructionData))
                } else {
                    match prepare_token_check(smart_data, accounts[1].key@, accounts[4].key@, mint_data, source_data, destination_data,
                        u64_at(data, 25), data[33]) {
                        Err(e) => Err(sfail(e)),
                        Ok(_) => Ok(()),
                    }
                },
            },
        }
    }
}

/// The quorum program call of an SPL transfer approved by Falcon + Winternitz.
pub open spec fn transfer_spl_falcon_winternitz_call(program_id: Seq<u8>, accounts: Seq<AccountHeader>, smart_data: Seq<u8>, data: Seq<u8>) -> Seq<u8> {
    quorum_falcon_winternitz_ix(data[0], u64_at(data, 1), u64_at(data, 9), u64_at(data, 17), SMART_TOKEN_TRANSFER_DOMAIN@,
        token_action_hash(program_id, accounts, smart_data, u64_at(data, 25), data[33]), data.subrange(34, 66), data.subrange(66, 732))
}

/// Checks an SPL transfer approved by Falcon + Winternitz and plans the quorum call and the
/// token call.
pub fn plan_transfer_spl_token_falcon_winternitz(program_id: &[u8; 32], accounts: &[AccountHeader], smart_data: &[u8], mint_data: &[u8],
    source_data: &[u8], destination_data: &[u8], data: &[u8]) -> (res: Result<TokenTransferPlan, ProgramFailure>)
    ensures
        res is Ok <==> transfer_spl_falcon_winternitz_outcome(program_id@, accounts@, smart_data@, mint_data@, source_data@, destination_data@, data@) is Ok,
        res matches Err(e) ==> transfer_spl_falcon_winternitz_outcome(program_id@, accounts@, smart_data@, mint_data@, source_data@, destination_data@,
            data@) == Err::<(), ProgramFailure>(e),
        res matches Ok(plan) ==> {
            &&& plan.quorum_ix@ == transfer_spl_falcon_winternitz_call(program_id@, accounts@, smart_data@, data@)
            &&& token_plan_fields(plan, smart_data@, u64_at(data@, 25), data@[33])
            &&& !plan.close_signature_buffer
        },
{
    if data.len() != TRANSFER_SPL_TOKEN_FALCON_WINTERNITZ_DATA_LEN {
        return Err(PqSmartAccountError::InvalidInstructionData.into_failure());
    }
    if accounts.len() < 11 {
        return Err(ProgramFailure::NotEnoughAccountKeys);
    }
    if !accounts[0].is_writable || !accounts[1].is_writable || !accounts[3].is_writable || !accounts[5].is_writable
        || !accounts[7].is_writable || !accounts[8].is_writable || !accounts[10].is_writable {
        return Err(ProgramFailure::InvalidAccountData);
    }
    match check_token_program(accounts) {
        Err(e) => { return Err(e); },
        Ok(_) => {},
    }
    match validate_transfer_program_accounts(program_id, accounts, smart_data, 5, 6, 7, 9) {
        Err(e) => { return Err(e); },
        Ok(_) => {},
    }
    match reject_duplicate_accounts(accounts, 11) {
        Err(e) => { return Err(e); },
        Ok(_) => {},
    }
    let cluster = data[0];
    let quorum_nonce = match read_u64(data, 1) { Some(v) => v, None => { return Err(PqSmartAccountError::InvalidInstructionData.into_failure()); } };
    let falcon_nonce = match read_u64(data, 9) { Some(v) => v, None => { return Err(PqSmartAccountError::InvalidInstructionData.into_failure()); } };
    let expires_slot = match read_u64(data, 17) { Some(v) => v, None => { return Err(PqSmartAccountError::InvalidInstructionData.into_failure()); } };
    let amount = match read_u64(data, 25) { Some(v) => v, None => { return Err(PqSmartAccountError::InvalidInstructionData.into_failure()); } };
    let decimals = data[33];
    if amount == 0 {
        return Err(PqSmartAccountError::InvalidInstructionData.into_failure());
    }
    let t = match prepare_token_transfer(program_id, accounts, smart_data, mint_data, source_data, destination_data, amount, decimals) {
        Err(e) => { return Err(e.into_failure()); },
        Ok(t) => t,
    };
    let ix = build_quorum_falcon_winternitz_ix(cluster, quorum_nonce, falcon_nonce, expires_slot, t.action_domain.as_slice(),
        t.action_hash.as_slice(), &data[34..66], &data[66..732]);
    Ok(token_plan(t, ix, amount, decimals, false))
}

/// Outcome of the checks of an SPL transfer approved by Falcon + Winternitz with the Falcon
/// signature in a buffer (accounts as for the unbuffered transfer, then the buffer).
pub open spec fn transfer_spl_falcon_winternitz_buffered_outcome(program_id: Seq<u8>, accounts: Seq<AccountHeader>, smart_data: Seq<u8>,
    mint_data: Seq<u8>, source_data: Seq<u8>, destination_data: Seq<u8>, buffer_data: Seq<u8>, data: Seq<u8>) -> Result<(), ProgramFailure> {
    if data.len() != TRANSFER_SPL_TOKEN_FALCON_WINTERNITZ_BUFFERED_DATA_LEN {
        Err(sfail(PqSmartAccountError::InvalidInstructionData))
    } else if accounts.len() < 12 {
        Err(ProgramFailure::NotEnoughAccountKeys)
    } else if !(accounts[0].is_writable && accounts[1].is_writable && accounts[3].is_writable && accounts[5].is_writable
        && accounts[7].is_writable && accounts[8].is_writable && accounts[10].is_writable && accounts[11].is_writable) {
        Err(ProgramFailure::InvalidAccountData)
    } else {
        match token_program_check(accounts) {
            Err(e) => Err(e),
            Ok(_) => if accounts[11].owner@ != program_id {
                Err(sfail(PqSmartAccountError::InvalidAccountOwner))
            } else {
                match transfer_accounts_check(program_id, accounts, smart_data, 5, 6, 7, 9) {
                    Err(e) => Err(e),
                    Ok(_) => if !keys_distinct(account_keys(accounts, 12)) {
                        Err(ProgramFailure::InvalidArgument)
                    } else if u64_at(data, 25) == 0 {
                        Err(sfail(PqSmartAccountError::InvalidInstructionData))
                    } else {
                        match read_falcon_buffer_outcome(program_id, accounts[11].key@, buffer_data, accounts[0].key@, accounts[1].key@,
                            accounts[7].key@, u64_at(data, 1)) {
                            Err(e) => Err(sfail(e)),
                            Ok(_) => match prepare_token_check(smart_data, accounts[1].key@, accounts[4].key@, mint_data, source_data,
                                destination_data, u64_at(data, 25), data[33]) {
                                Err(e) => Err(sfail(e)),
                                Ok(_) => Ok(()),
                            },
                        }
                    },
                }
            },
        }
    }
}

/// The quorum program call of a buffered SPL transfer approved by Falcon + Winternitz.
pub open spec fn transfer_spl_falcon_winternitz_buffered_call(program_id: Seq<u8>, accounts: Seq<AccountHeader>, smart_data: Seq<u8>,
    buffer_data: Seq<u8>, data: Seq<u8>) -> Seq<u8> {
    quorum_falcon_winternitz_ix(data[0], u64_at(data, 1), u64_at(data, 9), u64_at(data, 17), SMART_TOKEN_TRANSFER_DOMAIN@,
        token_action_hash(program_id, accounts, smart_data, u64_at(data, 25), data[33]), data.subrange(34, 66), buffer_data.subrange(118, 784))
}

/// Checks a buffered SPL transfer approved by Falcon + Winternitz and plans the quorum call,
/// the token call and the closing of the buffer.
pub fn plan_transfer_spl_token_falcon_winternitz_buffered(program_id: &[u8; 32], accounts: &[AccountHeader], smart_data: &[u8], mint_data: &[u8],
    source_data: &[u8], destination_data: &[u8], buffer_data: &[u8], data: &[u8]) -> (res: Result<TokenTransferPlan, ProgramFailure>)
    ensures
        res is Ok <==> transfer_spl_falcon_winternitz_buffered_outcome(program_id@, accounts@, smart_data@, mint_data@, source_data@,
            destination_data@, buffer_data@, data@) is Ok,
        res matches Err(e) ==> transfer_spl_falcon_winternitz_buffered_outcome(program_id@, accounts@, smart_data@, mint_data@, source_data@,
            destination_data@, buffer_data@, data@) == Err::<(), ProgramFailure>(e),
        res matches Ok(plan) ==> {
            &&& plan.quorum_ix@ == transfer_spl_falcon_winternitz_buffered_call(program_id@, accounts@, smart_data@, buffer_data@, data@)
            &&& token_plan_fields(plan, smart_data@, u64_at(data@, 25), data@[33])
            &&& plan.close_signature_buffer
        },
{
    if data.len() != TRANSFER_SPL_TOKEN_FALCON_WINTERNITZ_BUFFERED_DATA_LEN {
        return Err(PqSmartAccountError::InvalidInstructionData.into_failure());
    }
    if accounts.len() < 12 {
        return Err(ProgramFailure::NotEnoughAccountKeys);
    }
    if !accounts[0].is_writable || !accounts[1].is_writable || !accounts[3].is_writable || !accounts[5].is_writable
        || !accounts[7].is_writable || !accounts[8].is_writable || !accounts[10].is_writable || !accounts[11].is_writable {
        return Err(ProgramFailure::InvalidAccountData);
    }
    match check_token_program(accounts) {
        Err(e) => { return Err(e); },
        Ok(_) => {},
    }
    if !keys_eq(&accounts[11].owner, program_id) {
        return Err(PqSmartAccountError::InvalidAccountOwner.into_failure());
    }
    match validate_transfer_program_accounts(program_id, accounts, smart_data, 5, 6, 7, 9) {
        Err(e) => { return Err(e); },
        Ok(_) => {},
    }
    match reject_duplicate_accounts(accounts, 12) {
        Err(e) => { return Err(e); },
        Ok(_) => {},
    }
    let cluster = data[0];
    let quorum_nonce = match read_u64(data, 1) { Some(v) => v, None => { return Err(PqSmartAccountError::InvalidInstructionData.into_failure()); } };
    let falcon_nonce = match read_u64(data, 9) { Some(v) => v, None => { return Err(PqSmartAccountError::InvalidInstructionData.into_failure()); } };
    let expires_slot = match read_u64(data, 17) { Some(v) => v, None => { return Err(PqSmartAccountError::InvalidInstructionData.into_failure()); } };
    let amount = match read_u64(data, 25) { Some(v) => v, None => { return Err(PqSmartAccountError::InvalidInstructionData.into_failure()); } };
    let decimals = data[33];
    if amount == 0 {
        return Err(PqSmartAccountError::InvalidInstructionData.into_failure());
    }
    let signature = match read_falcon_signature_buffer(program_id, &accounts[11].key, buffer_data, &accounts[0].key, &accounts[1].key,
        &accounts[7].key, quorum_nonce) {
        Err(e) => { return Err(e.into_failure()); },
        Ok(s) => s,
    };
    let t = match prepare_token_transfer(program_id, accounts, smart_data, mint_data, source_data, destination_data, amount, decimals) {
        Err(e) => { return Err(e.into_failure()); },
        Ok(t) => t,
    };
    let ix = build_quorum_falcon_winternitz_ix(cluster, quorum_nonce, falcon_nonce, expires_slot, t.action_domain.as_slice(),
        t.action_hash.as_slice(), &data[34..66], signature.as_slice());
    Ok(token_plan(t, ix, amount, decimals, true))
}

/// Outcome of the checks of a buffered SPL transfer approved by Falcon + ML-DSA (accounts:
/// authority, smart account, token program, source, mint, destination, quorum program,
/// quorum, Falcon key, Falcon program, ML-DSA key buffer, signature buffer, proof, Falcon
/// signature buffer).
pub open spec fn transfer_spl_falcon_mldsa_buffered_outcome(program_id: Seq<u8>, accounts: Seq<AccountHeader>, smart_data: Seq<u8>,
    mint_data: Seq<u8>, source_data: Seq<u8>, destination_data: Seq<u8>, buffer_data: Seq<u8>, data: Seq<u8>) -> Result<(), ProgramFailure> {
    if data.len() != TRANSFER_SPL_TOKEN_FALCON_MLDSA_PROOF_BUFFERED_DATA_LEN {
        Err(sfail(PqSmartAccountError::InvalidInstructionData))
    } else if accounts.len() < 14 {
        Err(ProgramFailure::NotEnoughAccountKeys)
    } else if !(accounts[0].is_writable && accounts[1].is_writable && accounts[3].is_writable && accounts[5].is_writable
        && accounts[7].is_writable && accounts[8].is_writable && accounts[11].is_writable && accounts[12].is_writable && accounts[13].is_writable) {
        Err(ProgramFailure::InvalidAccountData)
    } else {
        match token_program_check(accounts) {
            Err(e) => Err(e),
            Ok(_) => if accounts[13].owner@ != program_id {
                Err(sfail(PqSmartAccountError::InvalidAccountOwner))
            } else {
                match transfer_accounts_check(program_id, accounts, smart_data, 5, 6, 7, 9) {
                    Err(e) => Err(e),
                    Ok(_) => if !keys_distinct(account_keys(accounts, 14)) {
                        Err(ProgramFailure::InvalidArgument)
                    } else if u64_at(data, 25) == 0 {
                        Err(sfail(PqSmartAccountError::InvalidInstructionData))
                    } else {
                        match read_falcon_buffer_outcome(program_id, accounts[13].key@, buffer_data, accounts[0].key@, accounts[1].key@,
                            accounts[7].key@, u64_at(data, 1)) {
                            Err(e) => Err(sfail(e)),
                            Ok(_) => match prepare_token_check(smart_data, accounts[1].key@, accounts[4].key@, mint_data, source_data,
                                destination_data, u64_at(data, 25), data[33]) {
                                Err(e) => Err(sfail(e)),
                                Ok(_) => Ok(()),
                            },
                        }
                    },
                }
            },
        }
    }
}

/// The quorum program call of a buffered SPL transfer approved by Falcon + ML-DSA.
pub open spec fn transfer_spl_falcon_mldsa_buffered_call(program_id: Seq<u8>, accounts: Seq<AccountHeader>, smart_data: Seq<u8>,
    buffer_data: Seq<u8>, data: Seq<u8>) -> Seq<u8> {
    quorum_falcon_mldsa_ix(data[0], u64_at(data, 1), u64_at(data, 9), u64_at(data, 17), SMART_TOKEN_TRANSFER_DOMAIN@,
        token_action_hash(program_id, accounts, smart_data, u64_at(data, 25), data[33]), buffer_data.subrange(118, 784))
}

/// Checks a buffered SPL transfer approved by Falcon + ML-DSA and plans the quorum call, the
/// token call and the closing of the buffer.
pub fn plan_transfer_spl_token_falcon_mldsa_proof_buffered(program_id: &[u8; 32], accounts: &[AccountHeader], smart_data: &[u8], mint_data: &[u8],
    source_data: &[u8], destination_data: &[u8], buffer_data: &[u8], data: &[u8]) -> (res: Result<TokenTransferPlan, ProgramFailure>)
    ensures
        res is Ok <==> transfer_spl_falcon_mldsa_buffered_outcome(program_id@, accounts@, smart_data@, mint_data@, source_data@,
            destination_data@, buffer_data@, data@) is Ok,
        res matches Err(e) ==> transfer_spl_falcon_mldsa_buffered_outcome(program_id@, accounts@, smart_data@, mint_data@, source_data@,
            destination_data@, buffer_data@, data@) == Err::<(), ProgramFailure>(e),
        res matches Ok(plan) ==> {
            &&& plan.quorum_ix@ == transfer_spl_falcon_mldsa_buffered_call(program_id@, accounts@, smart_data@, buffer_data@, data@)
            &&& token_plan_fields(plan, smart_data@, u64_at(data@, 25), data@[33])
            &&& plan.close_signature_buffer
        },
{
    if data.len() != TRANSFER_SPL_TOKEN_FALCON_MLDSA_PROOF_BUFFERED_DATA_LEN {
        return Err(PqSmartAccountError::InvalidInstructionData.into_failure());
    }
    if accounts.len() < 14 {
        return Err(ProgramFailure::NotEnoughAccountKeys);
    }
    if !accounts[0].is_writable || !accounts[1].is_writable || !accounts[3].is_writable || !accounts[5].is_writable
        || !accounts[7].is_writable || !accounts[8].is_writable || !accounts[11].is_writable || !accounts[12].is_writable || !accounts[13].is_writable {
        return Err(ProgramFailure::InvalidAccountData);
    }
    match check_token_program(accounts) {
        Err(e) => { return Err(e); },
        Ok(_) => {},
    }
    if !keys_eq(&accounts[13].owner, program_id) {
        return Err(PqSmartAccountError::InvalidAccountOwner.into_failure());
    }
    match validate_transfer_program_accounts(program_id, accounts, smart_data, 5, 6, 7, 9) {
        Err(e) => { return Err(e); },
        Ok(_) => {},
    }
    match reject_duplicate_accounts(accounts, 14) {
        Err(e) => { return Err(e); },
        Ok(_) => {},
    }
    let cluster = data[0];
    let quorum_nonce = match read_u64(data, 1) { Some(v) => v, None => { return Err(PqSmartAccountError::InvalidInstructionData.into_failure()); } };
    let falcon_nonce = match read_u64(data, 9) { Some(v) => v, None => { return Err(PqSmartAccountError::InvalidInstructionData.into_failure()); } };
    let expires_slot = match read_u64(data, 17) { Some(v) => v, None => { return Err(PqSmartAccountError::InvalidInstructionData.into_failure()); } };
    let amount = match read_u64(data, 25) { Some(v) => v, None => { return Err(PqSmartAccountError::InvalidInstructionData.into_failure()); } };
    let decimals = data[33];
    if amount == 0 {
        return Err(PqSmartAccountError::InvalidInstructionData.into_failure());
    }
    let signature = match read_falcon_signature_buffer(program_id, &accounts[13].key, buffer_data, &accounts[0].key, &accounts[1].key,
        &accounts[7].key, quorum_nonce) {
        Err(e) => { return Err(e.into_failure()); },
        Ok(s) => s,
    };
    let t = match prepare_token_transfer(program_id, accounts, smart_data, mint_data, source_data, destination_data, amount, decimals) {
        Err(e) => { return Err(e.into_failure()); },
        Ok(t) => t,
    };
    let ix = build_quorum_falcon_mldsa_ix(cluster, quorum_nonce, falcon_nonce, expires_slot, t.action_domain.as_slice(), t.action_hash.as_slice(),
        signature.as_slice());
    Ok(token_plan(t, ix, amount, decimals, true))
}

/// Outcome of the checks of an SPL transfer approved by Winternitz + ML-DSA (accounts:
/// authority, smart account, token program, source, mint, destination, quorum program,
/// quorum, Falcon key, Falcon program, Winternitz signature, ML-DSA key buffer, signature
/// buffer, proof).
pub open spec fn transfer_spl_winternitz_mldsa_outcome(program_id: Seq<u8>, accounts: Seq<AccountHeader>, smart_data: Seq<u8>, mint_data: Seq<u8>,
    source_data: Seq<u8>, destination_data: Seq<u8>, data: Seq<u8>) -> Result<(), ProgramFailure> {
    if data.len() != TRANSFER_SPL_TOKEN_WINTERNITZ_MLDSA_PROOF_DATA_LEN {
        Err(sfail(PqSmartAccountError::InvalidInstructionData))
    } else if accounts.len() < 14 {
        Err(ProgramFailure::NotEnoughAccountKeys)
    } else if !(accounts[0].is_writable && accounts[1].is_writable && accounts[3].is_writable && accounts[5].is_writable
        && accounts[7].is_writable && accounts[10].is_writable && accounts[12].is_writable && accounts[13].is_writable) {
        Err(ProgramFailure::InvalidAccountData)
    } else {
        match token_program_check(accounts) {
            Err(e) => Err(e),
            Ok(_) => match transfer_accounts_check(program_id, accounts, smart_data, 5, 6, 7, 9) {
                Err(e) => Err(e),
                Ok(_) => if !keys_distinct(account_keys(accounts, 14)) {
                    Err(ProgramFailure::InvalidArgument)
                } else if u64_at(data, 17) == 0 {
                    Err(sfail(PqSmartAccountError::InvalidInstructionData))
                } else {
                    match prepare_token_check(smart_data, accounts[1].key@, accounts[4].key@, mint_data, source_data, destination_data,
                        u64_at(data, 17), data[25]) {
                        Err(e) => Err(sfail(e)),
                        Ok(_) => Ok(()),
                    }
                },
            },
        }
    }
}

/// The quorum program call of an SPL transfer approved by Winternitz + ML-DSA.
pub open spec fn transfer_spl_winternitz_mldsa_call(program_id: Seq<u8>, accounts: Seq<AccountHeader>, smart_data: Seq<u8>, data: Seq<u8>) -> Seq<u8> {
    quorum_winternitz_mldsa_ix(data[0], u64_at(data, 1), u64_at(data, 9), SMART_TOKEN_TRANSFER_DOMAIN@,
        token_action_hash(program_id, accounts, smart_data, u64_at(data, 17), data[25]), data.subrange(26, 58))
}

/// Checks an SPL transfer approved by Winternitz + ML-DSA and plans the quorum call and the
/// token call.
pub fn plan_transfer_spl_token_winternitz_mldsa_proof(program_id: &[u8; 32], accounts: &[AccountHeader], smart_data: &[u8], mint_data: &[u8],
    source_data: &[u8], destination_data: &[u8], data: &[u8]) -> (res: Result<TokenTransferPlan, ProgramFailure>)
    ensures
        res is Ok <==> transfer_spl_winternitz_mldsa_outcome(program_id@, accounts@, smart_data@, mint_data@, source_data@, destination_data@, data@) is Ok,
        res matches Err(e) ==> transfer_spl_winternitz_mldsa_outcome(program_id@, accounts@, smart_data@, mint_data@, source_data@, destination_data@,
            data@) == Err::<(), ProgramFailure>(e),
        res matches Ok(plan) ==> {
            &&& plan.quorum_ix@ == transfer_spl_winternitz_mldsa_call(program_id@, accounts@, smart_data@, data@)
            &&& token_plan_fields(plan, smart_data@, u64_at(data@, 17), data@[25])
            &&& !plan.close_signature_buffer
        },
{
    if data.len() != TRANSFER_SPL_TOKEN_WINTERNITZ_MLDSA_PROOF_DATA_LEN {
        return Err(PqSmartAccountError::InvalidInstructionData.into_failure());
    }
    if accounts.len() < 14 {
        return Err(ProgramFailure::NotEnoughAccountKeys);
    }
    if !accounts[0].is_writable || !accounts[1].is_writable || !accounts[3].is_writable || !accounts[5].is_writable
        || !accounts[7].is_writable || !accounts[10].is_writable || !accounts[12].is_writable || !accounts[13].is_writable {
        return Err(ProgramFailure::InvalidAccountData);
    }
    match check_token_program(accounts) {
        Err(e) => { return Err(e); },
        Ok(_) => {},
    }
    match validate_transfer_program_accounts(program_id, accounts, smart_data, 5, 6, 7, 9) {
        Err(e) => { return Err(e); },
        Ok(_) => {},
    }
    match reject_duplicate_accounts(accounts, 14) {
        Err(e) => { return Err(e); },
        Ok(_) => {},
    }
    let cluster = data[0];
    let quorum_nonce = match read_u64(data, 1) { Some(v) => v, None => { return Err(PqSmartAccountError::InvalidInstructionData.into_failure()); } };
    let expires_slot = match read_u64(data, 9) { Some(v) => v, None => { return Err(PqSmartAccountError::InvalidInstructionData.into_failure()); } };
    let amount = match read_u64(data, 17) { Some(v) => v, None => { return Err(PqSmartAccountError::InvalidInstructionData.into_failure()); } };
    let decimals = data[25];
    if amount == 0 {
        return Err(PqSmartAccountError::InvalidInstructionData.into_failure());
    }
    let t = match prepare_token_transfer(program_id, accounts, smart_data, mint_data, source_data, destination_data, amount, decimals) {
        Err(e) => { return Err(e.into_failure()); },
        Ok(t) => t,
    };
    let ix = build_quorum_winternitz_mldsa_ix(cluster, quorum_nonce, expires_slot, t.action_domain.as_slice(), t.action_hash.as_slice(),
        &data[26..58]);
    Ok(token_plan(t, ix, amount, decimals, false))
}

// ---------------------------------------------------------------------------------------
// Laws.

/// A recorded transfer cannot be approved again: recording it moves the spend count on, so
/// the SOL or SPL action that the next transfer asks the quorum to approve differs from the
/// one just approved, whatever the keys and amount.
pub proof fn law_recorded_transfer_not_replayable(d: Seq<u8>, program_id: Seq<u8>, smart_account: Seq<u8>, authority: Seq<u8>,
    destination: Seq<u8>, token_program: Seq<u8>, source_token: Seq<u8>, mint: Seq<u8>, amount: u64, decimals: u8)
    requires
        d.len() == 116,
        spend_count(d) < u64::MAX,
    ensures
        ({
            let next = spliced(d, 108, spec_u64_to_le_bytes((spend_count(d) + 1) as u64));
            &&& spend_count(next) == spend_count(d) + 1
            &&& sol_transfer_preimage(program_id, smart_account, authority, destination, amount, spend_count(next))
                != sol_transfer_preimage(program_id, smart_account, authority, destination, amount, spend_count(d))
            &&& spl_transfer_preimage(program_id, smart_account, authority, token_program, source_token, mint, destination, amount, decimals,
                spend_count(next))
                != spl_transfer_preimage(program_id, smart_account, authority, token_program, source_token, mint, destination, amount, decimals,
                spend_count(d))
        }),
{
    lemma_auto_spec_u64_to_from_le_bytes();
    let c = spend_count(d);
    let next = spliced(d, 108, spec_u64_to_le_bytes((c + 1) as u64));
    assert(next.subrange(108, 116) =~= spec_u64_to_le_bytes((c + 1) as u64));
    let a = sol_transfer_preimage(program_id, smart_account, authority, destination, amount, spend_count(next));
    let b = sol_transfer_preimage(program_id, smart_account, authority, destination, amount, c);
    assert(a.len() == b.len());
    assert(a.subrange(a.len() - 8, a.len() as int) =~= spec_u64_to_le_bytes(spend_count(next)));
    assert(b.subrange(b.len() - 8, b.len() as int) =~= spec_u64_to_le_bytes(c));
    let x = spl_transfer_preimage(program_id, smart_account, authority, token_program, source_token, mint, destination, amount, decimals,
        spend_count(next));
    let y = spl_transfer_preimage(program_id, smart_account, authority, token_program, source_token, mint, destination, amount, decimals, c);
    assert(x.subrange(x.len() - 8, x.len() as int) =~= spec_u64_to_le_bytes(spend_count(next)));
    assert(y.subrange(y.len() - 8, y.len() as int) =~= spec_u64_to_le_bytes(c));
}

/// An SPL transfer passes its token checks only when the mint is initialized with the given
/// decimals, both token accounts are initialized accounts of that mint, the source belongs to
/// the smart account and holds at least the amount, and the spend can still be counted.
pub proof fn law_prepare_token_requirements(smart_data: Seq<u8>, smart_account: Seq<u8>, mint: Seq<u8>, mint_data: Seq<u8>, source_data: Seq<u8>,
    destination_data: Seq<u8>, amount: u64, decimals: u8)
    ensures
        prepare_token_check(smart_data, smart_account, mint, mint_data, source_data, destination_data, amount, decimals) is Ok ==> {
            &&& smart_data.len() >= 116
            &&& mint_data.len() == MINT_LEN && mint_data[45] == 1 && mint_data[44] == decimals
            &&& source_data.len() == TOKEN_ACCOUNT_LEN && destination_data.len() == TOKEN_ACCOUNT_LEN
            &&& source_data[108] == 1 && destination_data[108] == 1
            &&& source_data.subrange(0, 32) == mint && destination_data.subrange(0, 32) == mint
            &&& source_data.subrange(32, 64) == smart_account
            &&& crate::smart_account::state::u64_at(source_data, 64) >= amount
            &&& spend_count(smart_data) < u64::MAX
        },
{
}

/// The accounts a transfer runs against pass their checks only when the smart account is
/// the program's, the quorum is owned by the quorum program, both programs are executable,
/// the smart account passes its checks for this authority and (quorum program, quorum)
/// pair, and the destination is not the smart account itself.
pub proof fn law_transfer_accounts_requirements(program_id: Seq<u8>, accounts: Seq<AccountHeader>, smart_data: Seq<u8>, destination: int,
    pq_quorum_program: int, quorum: int, falcon_auth_program: int)
    ensures
        transfer_accounts_check(program_id, accounts, smart_data, destination, pq_quorum_program, quorum, falcon_auth_program) is Ok ==> {
            &&& accounts[1].owner@ == program_id
            &&& accounts[quorum].owner@ == accounts[pq_quorum_program].key@
            &&& accounts[pq_quorum_program].executable && accounts[falcon_auth_program].executable
            &&& smart_state_check(program_id, accounts[1].key@, smart_data, Some(accounts[0].key@),
                Some((accounts[pq_quorum_program].key@, accounts[quorum].key@))) is Ok
            &&& accounts[1].key@ != accounts[destination].key@
        },
{
}

/// A SOL transfer passes its checks, whichever pair of schemes approves it, only when the
/// smart account is the program's and passes its checks for the authority, quorum program
/// and quorum named; the quorum belongs to the quorum program; both programs are executable;
/// no account repeats; the amount is positive, leaves the smart account at or above its
/// rent-exempt minimum and fits in the destination's balance; and a buffered Falcon signature
/// is complete and bound to this account, quorum and Falcon nonce.
pub proof fn law_sol_transfer_requirements(program_id: Seq<u8>, accounts: Seq<AccountHeader>, smart_data: Seq<u8>, buffer_data: Seq<u8>,
    data: Seq<u8>, rent_minimum: u64)
    ensures
        transfer_falcon_winternitz_outcome(program_id, accounts, smart_data, data, rent_minimum) is Ok ==> {
            &&& data.len() == TRANSFER_FALCON_WINTERNITZ_DATA_LEN && accounts.len() >= 8
            &&& accounts[1].owner@ == program_id && accounts[4].owner@ == accounts[3].key@
            &&& accounts[3].executable && accounts[6].executable
            &&& keys_distinct(account_keys(accounts, 8))
            &&& smart_state_check(program_id, accounts[1].key@, smart_data, Some(accounts[0].key@), Some((accounts[3].key@, accounts[4].key@))) is Ok
            &&& u64_at(data, 25) > 0
            &&& accounts[1].lamports >= u64_at(data, 25) + rent_minimum
            &&& accounts[2].lamports + u64_at(data, 25) <= u64::MAX
        },
        transfer_falcon_mldsa_outcome(program_id, accounts, smart_data, data, rent_minimum) is Ok ==> {
            &&& data.len() == TRANSFER_FALCON_MLDSA_PROOF_DATA_LEN && accounts.len() >= 10
            &&& transfer_accounts_check(program_id, accounts, smart_data, 2, 3, 4, 6) is Ok
            &&& keys_distinct(account_keys(accounts, 10))
            &&& prepare_transfer_check(smart_data, u64_at(data, 25), accounts[1].lamports, accounts[2].lamports, rent_minimum) is Ok
        },
        transfer_falcon_mldsa_buffered_outcome(program_id, accounts, smart_data, buffer_data, data, rent_minimum) is Ok ==> {
            &&& data.len() == TRANSFER_FALCON_MLDSA_PROOF_BUFFERED_DATA_LEN && accounts.len() >= 11
            &&& transfer_accounts_check(program_id, accounts, smart_data, 2, 3, 4, 6) is Ok
            &&& accounts[10].owner@ == program_id
            &&& keys_distinct(account_keys(accounts, 11))
            &&& read_falcon_buffer_outcome(program_id, accounts[10].key@, buffer_data, accounts[0].key@, accounts[1].key@, accounts[4].key@,
                u64_at(data, 1)) is Ok
            &&& prepare_transfer_check(smart_data, u64_at(data, 25), accounts[1].lamports, accounts[2].lamports, rent_minimum) is Ok
        },
        transfer_winternitz_mldsa_outcome(program_id, accounts, smart_data, data, rent_minimum) is Ok ==> {
            &&& data.len() == TRANSFER_WINTERNITZ_MLDSA_PROOF_DATA_LEN && accounts.len() >= 11
            &&& transfer_accounts_check(program_id, accounts, smart_data, 2, 3, 4, 6) is Ok
            &&& keys_distinct(account_keys(accounts, 11))
            &&& prepare_transfer_check(smart_data, u64_at(data, 17), accounts[1].lamports, accounts[2].lamports, rent_minimum) is Ok
        },
{
}

/// An SPL transfer passes its checks, whichever pair of schemes approves it, only when the
/// token program is the classic SPL token program, is executable and owns the mint and both
/// token accounts; the program accounts pass the transfer checks; no account repeats; the
/// amount is positive and passes the token checks with the instruction's decimals; and a
/// buffered Falcon signature is the program's, complete and bound to this account, quorum and
/// Falcon nonce.
pub proof fn law_spl_transfer_requirements(program_id: Seq<u8>, accounts: Seq<AccountHeader>, smart_data: Seq<u8>, mint_data: Seq<u8>,
    source_data: Seq<u8>, destination_data: Seq<u8>, buffer_data: Seq<u8>, data: Seq<u8>)
    ensures
        transfer_spl_falcon_winternitz_outcome(program_id, accounts, smart_data, mint_data, source_data, destination_data, data) is Ok ==> {
            &&& data.len() == TRANSFER_SPL_TOKEN_FALCON_WINTERNITZ_DATA_LEN && accounts.len() >= 11
            &&& accounts[2].key@ == SPL_TOKEN_PROGRAM_ID@ && accounts[2].executable
            &&& accounts[3].owner@ == accounts[2].key@ && accounts[4].owner@ == accounts[2].key@ && accounts[5].owner@ == accounts[2].key@
            &&& transfer_accounts_check(program_id, accounts, smart_data, 5, 6, 7, 9) is Ok
            &&& keys_distinct(account_keys(accounts, 11))
            &&& u64_at(data, 25) > 0
            &&& prepare_token_check(smart_data, accounts[1].key@, accounts[4].key@, mint_data, source_data, destination_data, u64_at(data, 25),
                data[33]) is Ok
        },
        transfer_spl_falcon_winternitz_buffered_outcome(program_id, accounts, smart_data, mint_data, source_data, destination_data, buffer_data,
            data) is Ok ==> {
            &&& data.len() == TRANSFER_SPL_TOKEN_FALCON_WINTERNITZ_BUFFERED_DATA_LEN && accounts.len() >= 12
            &&& token_program_check(accounts) is Ok
            &&& accounts[11].owner@ == program_id
            &&& transfer_accounts_check(program_id, accounts, smart_data, 5, 6, 7, 9) is Ok
            &&& keys_distinct(account_keys(accounts, 12))
            &&& u64_at(data, 25) > 0
            &&& read_falcon_buffer_outcome(program_id, accounts[11].key@, buffer_data, accounts[0].key@, accounts[1].key@, accounts[7].key@,
                u64_at(data, 1)) is Ok
            &&& prepare_token_check(smart_data, accounts[1].key@, accounts[4].key@, mint_data, source_data, destination_data, u64_at(data, 25),
                data[33]) is Ok
        },
        transfer_spl_falcon_mldsa_buffered_outcome(program_id, accounts, smart_data, mint_data, source_data, destination_data, buffer_data,
            data) is Ok ==> {
            &&& data.len() == TRANSFER_SPL_TOKEN_FALCON_MLDSA_PROOF_BUFFERED_DATA_LEN && accounts.len() >= 14
            &&& token_program_check(accounts) is Ok
            &&& accounts[13].owner@ == program_id
            &&& transfer_accounts_check(program_id, accounts, smart_data, 5, 6, 7, 9) is Ok
            &&& keys_distinct(account_keys(accounts, 14))
            &&& u64_at(data, 25) > 0
            &&& read_falcon_buffer_outcome(program_id, accounts[13].key@, buffer_data, accounts[0].key@, accounts[1].key@, accounts[7].key@,
                u64_at(data, 1)) is Ok
            &&& prepare_token_check(smart_data, accounts[1].key@, accounts[4].key@, mint_data, source_data, destination_data, u64_at(data, 25),
                data[33]) is Ok
        },
        transfer_spl_winternitz_mldsa_outcome(program_id, accounts, smart_data, mint_data, source_data, destination_data, data) is Ok ==> {
            &&& data.len() == TRANSFER_SPL_TOKEN_WINTERNITZ_MLDSA_PROOF_DATA_LEN && accounts.len() >= 14
            &&& token_program_check(accounts) is Ok
            &&& transfer_accounts_check(program_id, accounts, smart_data, 5, 6, 7, 9) is Ok
            &&& keys_distinct(account_keys(accounts, 14))
            &&& u64_at(data, 17) > 0
            &&& prepare_token_check(smart_data, accounts[1].key@, accounts[4].key@, mint_data, source_data, destination_data, u64_at(data, 17),
                data[25]) is Ok
        },
{
}

} // verus!
