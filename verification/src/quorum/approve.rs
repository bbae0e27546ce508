//! The three approval instructions. Each is split where the runtime has to act: the checks
//! produce a plan (the Falcon program call to make, the buffers to close), and after the
//! call the quorum account is advanced.
use vstd::prelude::*;
use vstd::bytes::spec_u64_from_le_bytes;
use crate::digest::spec_sha256;
use crate::runtime::{AccountHeader, ProgramFailure, keys_eq, bytes_eq, read_u64, fill_bytes, spliced};
use crate::quorum::state::{
    PqQuorumAuthError, qfail, keys_distinct, reject_duplicate_runtime_accounts, verify_state_check, validate_verify_state,
    quorum_root, quorum_nonce, QUORUM_MODE_FALCON_MLDSA, QUORUM_MODE_WINTERNITZ_MLDSA, advanced_quorum, quorum_state_check,
};
use crate::quorum::wots::{winternitz_outcome, verify_winternitz_signature};
use crate::quorum::payload::{
    quorum_payload, quorum_payload_v2, build_quorum_action_payload, build_quorum_action_v2_payload, falcon_verify_ix, build_falcon_verify_ix,
    pq_quorum_falcon_domain, pq_quorum_falcon_action_hash, pq_quorum_falcon_domain_v2, pq_quorum_falcon_action_hash_v2, DOMAIN_PREFIX,
    FALCON_APPROVAL_V1, FALCON_APPROVAL_V2, FALCON_ACTION_TAG_V1, FALCON_ACTION_TAG_V2,
};
use crate::quorum::mldsa_proof::{approval_outcome, verify_mldsa_proof_approval};

verus! {

pub const VERIFY_FALCON_WINTERNITZ_DATA_LEN: usize = 787;
pub const VERIFY_FALCON_MLDSA_DATA_LEN: usize = 755;
pub const VERIFY_WINTERNITZ_MLDSA_DATA_LEN: usize = 113;

/// What remains after the checks of an approval: the Falcon program call (if any), the
/// quorum nonce to advance, the root to rotate to, and which buffers close into the
/// authority (the Winternitz buffer; the ML-DSA signature and proof accounts).
pub struct ApprovalPlan {
    pub falcon_ix: Option<Vec<u8>>,
    pub quorum_nonce: u64,
    pub next_root: Option<[u8; 32]>,
    pub close_winternitz_buffer: bool,
    pub close_mldsa_buffers: bool,
}

pub open spec fn u64_at(data: Seq<u8>, at: int) -> u64 {
    spec_u64_from_le_bytes(data.subrange(at, at + 8))
}

/// The keys of the first `n` accounts.
pub open spec fn account_keys(accounts: Seq<AccountHeader>, n: int) -> Seq<[u8; 32]> {
    accounts.take(n).map_values(|a: AccountHeader| a.key)
}

pub(crate) fn collect_keys(accounts: &[AccountHeader], n: usize) -> (keys: Vec<[u8; 32]>)
    requires
        n <= accounts@.len(),
    ensures
        keys@ == account_keys(accounts@, n as int),
{
    let mut keys: Vec<[u8; 32]> = Vec::new();
    let mut i: usize = 0;
    while i < n
        invariant
            n <= accounts@.len(),
            i <= n,
            keys@ == account_keys(accounts@, i as int),
        decreases n - i,
    {
        keys.push(accounts[i].key);
        i += 1;
        proof {
            assert(keys@ =~= account_keys(accounts@, i as int));
        }
    }
    keys
}

// ---------------------------------------------------------------------------------------
// Falcon + Winternitz.

/// Outcome of the checks of a Falcon + Winternitz approval (accounts: authority, quorum,
/// Falcon key, Falcon program, Winternitz signature) at slot `slot`.
pub open spec fn falcon_winternitz_outcome(program_id: Seq<u8>, accounts: Seq<AccountHeader>, quorum_data: Seq<u8>, wots_data: Seq<u8>,
    data: Seq<u8>, slot: u64) -> Result<(), ProgramFailure> {
    if data.len() != VERIFY_FALCON_WINTERNITZ_DATA_LEN {
        Err(qfail(PqQuorumAuthError::InvalidInstructionData))
    } else if accounts.len() < 5 {
        Err(ProgramFailure::NotEnoughAccountKeys)
    } else if !(accounts[0].is_writable && accounts[1].is_writable && accounts[2].is_writable && accounts[4].is_writable) {
        Err(ProgramFailure::InvalidAccountData)
    } else if accounts[1].owner@ != program_id {
        Err(qfail(PqQuorumAuthError::InvalidAccountOwner))
    } else if !accounts[3].executable {
        Err(qfail(PqQuorumAuthError::InvalidFalconAuthProgram))
    } else if !keys_distinct(account_keys(accounts, 5)) {
        Err(ProgramFailure::InvalidArgument)
    } else {
        let cluster = data[0];
        let qnonce = u64_at(data, 1);
        let expires = u64_at(data, 17);
        let next_root = data.subrange(89, 121);
        match verify_state_check(program_id, accounts[0].key@, accounts[1].key@, accounts[3].key@, accounts[2].key@, quorum_data, cluster, qnonce, expires, slot) {
            Err(e) => Err(qfail(e)),
            Ok(_) => if next_root == quorum_root(quorum_data) {
                Err(qfail(PqQuorumAuthError::InvalidWinternitzRoot))
            } else {
                let payload = quorum_payload(cluster, program_id, accounts[0].key@, accounts[1].key@, qnonce, expires, data.subrange(25, 57),
                    data.subrange(57, 89), next_root);
                match winternitz_outcome(program_id, accounts[0].key@, accounts[1].key@, qnonce, accounts[4].owner@, accounts[4].key@, wots_data,
                    payload, quorum_root(quorum_data)) {
                    Err(e) => Err(qfail(e)),
                    Ok(_) => Ok(()),
                }
            },
        }
    }
}

/// The Falcon program call of a Falcon + Winternitz approval: the Falcon key signs the v1
/// payload's hash under the v1 approval domain.
pub open spec fn falcon_winternitz_call(program_id: Seq<u8>, accounts: Seq<AccountHeader>, data: Seq<u8>) -> Seq<u8> {
    let payload = quorum_payload(data[0], program_id, accounts[0].key@, accounts[1].key@, u64_at(data, 1), u64_at(data, 17), data.subrange(25, 57),
        data.subrange(57, 89), data.subrange(89, 121));
    falcon_verify_ix(data[0], u64_at(data, 9), u64_at(data, 17), spec_sha256(DOMAIN_PREFIX@ + FALCON_APPROVAL_V1@),
        spec_sha256(FALCON_ACTION_TAG_V1@ + payload), data.subrange(121, 787))
}

/// Checks a Falcon + Winternitz approval and plans the Falcon program call.
pub fn plan_verify_falcon_winternitz(program_id: &[u8; 32], accounts: &[AccountHeader], quorum_data: &[u8], wots_data: &[u8], data: &[u8], slot: u64)
    -> (res: Result<ApprovalPlan, ProgramFailure>)
    ensures
        res is Ok <==> falcon_winternitz_outcome(program_id@, accounts@, quorum_data@, wots_data@, data@, slot) is Ok,
        res matches Err(e) ==> falcon_winternitz_outcome(program_id@, accounts@, quorum_data@, wots_data@, data@, slot) == Err::<(), ProgramFailure>(e),
        res matches Ok(plan) ==> {
            &&& plan.falcon_ix matches Some(ix) && ix@ == falcon_winternitz_call(program_id@, accounts@, data@)
            &&& plan.quorum_nonce == u64_at(data@, 1)
            &&& plan.next_root matches Some(r) && r@ == data@.subrange(89, 121)
            &&& plan.close_winternitz_buffer == (accounts@[4].owner@ == program_id@)
            &&& !plan.close_mldsa_buffers
        },
{
    if data.len() != VERIFY_FALCON_WINTERNITZ_DATA_LEN {
        return Err(PqQuorumAuthError::InvalidInstructionData.into_failure());
    }
    if accounts.len() < 5 {
        return Err(ProgramFailure::NotEnoughAccountKeys);
    }
    let authority = accounts[0];
    let quorum = accounts[1];
    let falcon_key = accounts[2];
    let falcon_program = accounts[3];
    let wots = accounts[4];
    if !(authority.is_writable && quorum.is_writable && falcon_key.is_writable && wots.is_writable) {
        return Err(ProgramFailure::InvalidAccountData);
    }
    if !keys_eq(&quorum.owner, program_id) {
        return Err(PqQuorumAuthError::InvalidAccountOwner.into_failure());
    }
    if !falcon_program.executable {
        return Err(PqQuorumAuthError::InvalidFalconAuthProgram.into_failure());
    }
    let keys = collect_keys(accounts, 5);
    reject_duplicate_runtime_accounts(keys.as_slice())?;
    let cluster = data[0];
    let qnonce = match read_u64(data, 1) { Some(v) => v, None => { return Err(PqQuorumAuthError::InvalidInstructionData.into_failure()); } };
    let fnonce = match read_u64(data, 9) { Some(v) => v, None => { return Err(PqQuorumAuthError::InvalidInstructionData.into_failure()); } };
    let expires = match read_u64(data, 17) { Some(v) => v, None => { return Err(PqQuorumAuthError::InvalidInstructionData.into_failure()); } };
    let domain = &data[25..57];
    let hash = &data[57..89];
    let next_root = &data[89..121];
    let falcon_signature = &data[121..787];
    let state = match validate_verify_state(program_id, &authority.key, &quorum.key, &falcon_program.key, &falcon_key.key, quorum_data, cluster, qnonce, expires, slot) {
        Ok(s) => s,
        Err(e) => { return Err(e.into_failure()); },
    };
    if bytes_eq(next_root, state.winternitz_root.as_slice()) {
        return Err(PqQuorumAuthError::InvalidWinternitzRoot.into_failure());
    }
    let payload = build_quorum_action_payload(cluster, program_id.as_slice(), authority.key.as_slice(), quorum.key.as_slice(), qnonce, expires,
        domain, hash, next_root);
    let close = match verify_winternitz_signature(program_id, &authority.key, &quorum.key, qnonce, &wots.owner, &wots.key, wots_data,
        payload.as_slice(), &state.winternitz_root) {
        Ok(c) => c,
        Err(e) => { return Err(e.into_failure()); },
    };
    let falcon_domain = pq_quorum_falcon_domain();
    proof {
        vstd::bytes::lemma_auto_spec_u64_to_from_le_bytes();
    }
    let falcon_hash = pq_quorum_falcon_action_hash(payload.as_slice());
    let ix = build_falcon_verify_ix(cluster, fnonce, expires, falcon_domain.as_slice(), falcon_hash.as_slice(), falcon_signature);
    let mut root = [0u8; 32];
    let mut k: usize = 0;
    while k < 32
        invariant
            data@.len() == 787,
            k <= 32,
            forall|i: int| 0 <= i < k ==> #[trigger] root@[i] == data@[89 + i],
        decreases 32 - k,
    {
        root[k] = data[89 + k];
        k += 1;
    }
    proof {
        assert(root@ =~= data@.subrange(89, 121));
    }
    Ok(ApprovalPlan { falcon_ix: Some(ix), quorum_nonce: qnonce, next_root: Some(root), close_winternitz_buffer: close, close_mldsa_buffers: false })
}

// ---------------------------------------------------------------------------------------
// Falcon + ML-DSA.

/// Outcome of the checks of a Falcon + ML-DSA approval (accounts: authority, quorum, Falcon
/// key, Falcon program, ML-DSA key buffer, signature buffer, proof).
pub open spec fn falcon_mldsa_outcome(program_id: Seq<u8>, accounts: Seq<AccountHeader>, quorum_data: Seq<u8>, key_data: Seq<u8>, sig_data: Seq<u8>,
    proof_data: Seq<u8>, data: Seq<u8>, slot: u64) -> Result<(), ProgramFailure> {
    if data.len() != VERIFY_FALCON_MLDSA_DATA_LEN {
        Err(qfail(PqQuorumAuthError::InvalidInstructionData))
    } else if accounts.len() < 7 {
        Err(ProgramFailure::NotEnoughAccountKeys)
    } else if !(accounts[0].is_writable && accounts[1].is_writable && accounts[2].is_writable && accounts[5].is_writable && accounts[6].is_writable) {
        Err(ProgramFailure::InvalidAccountData)
    } else if accounts[1].owner@ != program_id {
        Err(qfail(PqQuorumAuthError::InvalidAccountOwner))
    } else if !accounts[3].executable {
        Err(qfail(PqQuorumAuthError::InvalidFalconAuthProgram))
    } else if !keys_distinct(account_keys(accounts, 7)) {
        Err(ProgramFailure::InvalidArgument)
    } else {
        let cluster = data[0];
        let qnonce = u64_at(data, 1);
        let expires = u64_at(data, 17);
        match verify_state_check(program_id, accounts[0].key@, accounts[1].key@, accounts[3].key@, accounts[2].key@, quorum_data, cluster, qnonce, expires, slot) {
            Err(e) => Err(qfail(e)),
            Ok(_) => {
                let root = quorum_root(quorum_data);
                let payload = quorum_payload_v2(QUORUM_MODE_FALCON_MLDSA, cluster, program_id, accounts[0].key@, accounts[1].key@, accounts[4].key@,
                    qnonce, expires, data.subrange(25, 57), data.subrange(57, 89), root, root);
                match approval_outcome(program_id, accounts[0].key@, accounts[1].key@, qnonce, QUORUM_MODE_FALCON_MLDSA, accounts[4], accounts[5],
                    accounts[6], key_data, sig_data, proof_data, payload) {
                    Err(e) => Err(qfail(e)),
                    Ok(_) => Ok(()),
                }
            },
        }
    }
}

/// The Falcon program call of a Falcon + ML-DSA approval (v2 payload and domain).
pub open spec fn falcon_mldsa_call(program_id: Seq<u8>, accounts: Seq<AccountHeader>, quorum_data: Seq<u8>, data: Seq<u8>) -> Seq<u8> {
    let root = quorum_root(quorum_data);
    let payload = quorum_payload_v2(QUORUM_MODE_FALCON_MLDSA, data[0], program_id, accounts[0].key@, accounts[1].key@, accounts[4].key@,
        u64_at(data, 1), u64_at(data, 17), data.subrange(25, 57), data.subrange(57, 89), root, root);
    falcon_verify_ix(data[0], u64_at(data, 9), u64_at(data, 17), spec_sha256(DOMAIN_PREFIX@ + FALCON_APPROVAL_V2@),
        spec_sha256(FALCON_ACTION_TAG_V2@ + payload), data.subrange(89, 755))
}

/// Checks a Falcon + ML-DSA approval against a completed proof and plans the Falcon call.
pub fn plan_verify_falcon_mldsa_proof(program_id: &[u8; 32], accounts: &[AccountHeader], quorum_data: &[u8], key_data: &[u8], sig_data: &[u8],
    proof_data: &[u8], data: &[u8], slot: u64) -> (res: Result<ApprovalPlan, ProgramFailure>)
    ensures
        res is Ok <==> falcon_mldsa_outcome(program_id@, accounts@, quorum_data@, key_data@, sig_data@, proof_data@, data@, slot) is Ok,
        res matches Err(e) ==> falcon_mldsa_outcome(program_id@, accounts@, quorum_data@, key_data@, sig_data@, proof_data@, data@, slot) == Err::<(), ProgramFailure>(e),
        res matches Ok(plan) ==> {
            &&& plan.falcon_ix matches Some(ix) && ix@ == falcon_mldsa_call(program_id@, accounts@, quorum_data@, data@)
            &&& plan.quorum_nonce == u64_at(data@, 1)
            &&& plan.next_root is None
            &&& !plan.close_winternitz_buffer
            &&& plan.close_mldsa_buffers
        },
{
    if data.len() != VERIFY_FALCON_MLDSA_DATA_LEN {
        return Err(PqQuorumAuthError::InvalidInstructionData.into_failure());
    }
    if accounts.len() < 7 {
        return Err(ProgramFailure::NotEnoughAccountKeys);
    }
    let authority = accounts[0];
    let quorum = accounts[1];
    let falcon_key = accounts[2];
    let falcon_program = accounts[3];
    let mldsa_key = accounts[4];
    let mldsa_sig = accounts[5];
    let mldsa_proof = accounts[6];
    if !(authority.is_writable && quorum.is_writable && falcon_key.is_writable && mldsa_sig.is_writable && mldsa_proof.is_writable) {
        return Err(ProgramFailure::InvalidAccountData);
    }
    if !keys_eq(&quorum.owner, program_id) {
        return Err(PqQuorumAuthError::InvalidAccountOwner.into_failure());
    }
    if !falcon_program.executable {
        return Err(PqQuorumAuthError::InvalidFalconAuthProgram.into_failure());
    }
    let keys = collect_keys(accounts, 7);
    reject_duplicate_runtime_accounts(keys.as_slice())?;
    let cluster = data[0];
    let qnonce = match read_u64(data, 1) { Some(v) => v, None => { return Err(PqQuorumAuthError::InvalidInstructionData.into_failure()); } };
    let fnonce = match read_u64(data, 9) { Some(v) => v, None => { return Err(PqQuorumAuthError::InvalidInstructionData.into_failure()); } };
    let expires = match read_u64(data, 17) { Some(v) => v, None => { return Err(PqQuorumAuthError::InvalidInstructionData.into_failure()); } };
    let domain = &data[25..57];
    let hash = &data[57..89];
    let falcon_signature = &data[89..755];
    let state = match validate_verify_state(program_id, &authority.key, &quorum.key, &falcon_program.key, &falcon_key.key, quorum_data, cluster, qnonce, expires, slot) {
        Ok(s) => s,
        Err(e) => { return Err(e.into_failure()); },
    };
    let payload = build_quorum_action_v2_payload(QUORUM_MODE_FALCON_MLDSA, cluster, program_id.as_slice(), authority.key.as_slice(), quorum.key.as_slice(),
        mldsa_key.key.as_slice(), qnonce, expires, domain, hash, state.winternitz_root.as_slice(), state.winternitz_root.as_slice());
    match verify_mldsa_proof_approval(program_id, &authority.key, &quorum.key, qnonce, QUORUM_MODE_FALCON_MLDSA, &mldsa_key, &mldsa_sig, &mldsa_proof,
        key_data, sig_data, proof_data, payload.as_slice()) {
        Ok(_) => {},
        Err(e) => { return Err(e.into_failure()); },
    }
    let falcon_domain = pq_quorum_falcon_domain_v2();
    proof {
        vstd::bytes::lemma_auto_spec_u64_to_from_le_bytes();
    }
    let falcon_hash = pq_quorum_falcon_action_hash_v2(payload.as_slice());
    let ix = build_falcon_verify_ix(cluster, fnonce, expires, falcon_domain.as_slice(), falcon_hash.as_slice(), falcon_signature);
    Ok(ApprovalPlan { falcon_ix: Some(ix), quorum_nonce: qnonce, next_root: None, close_winternitz_buffer: false, close_mldsa_buffers: true })
}

// ---------------------------------------------------------------------------------------
// Winternitz + ML-DSA.

/// Outcome of the checks of a Winternitz + ML-DSA approval (accounts: authority, quorum,
/// Falcon key, Falcon program, Winternitz signature, ML-DSA key buffer, signature buffer,
/// proof).
pub open spec fn winternitz_mldsa_outcome(program_id: Seq<u8>, accounts: Seq<AccountHeader>, quorum_data: Seq<u8>, wots_data: Seq<u8>, key_data: Seq<u8>,
    sig_data: Seq<u8>, proof_data: Seq<u8>, data: Seq<u8>, slot: u64) -> Result<(), ProgramFailure> {
    if data.len() != VERIFY_WINTERNITZ_MLDSA_DATA_LEN {
        Err(qfail(PqQuorumAuthError::InvalidInstructionData))
    } else if accounts.len() < 8 {
        Err(ProgramFailure::NotEnoughAccountKeys)
    } else if !(accounts[0].is_writable && accounts[1].is_writable && accounts[4].is_writable && accounts[6].is_writable && accounts[7].is_writable) {
        Err(ProgramFailure::InvalidAccountData)
    } else if accounts[1].owner@ != program_id {
        Err(qfail(PqQuorumAuthError::InvalidAccountOwner))
    } else if !accounts[3].executable {
        Err(qfail(PqQuorumAuthError::InvalidFalconAuthProgram))
    } else if !keys_distinct(account_keys(accounts, 8)) {
        Err(ProgramFailure::InvalidArgument)
    } else {
        let cluster = data[0];
        let qnonce = u64_at(data, 1);
        let expires = u64_at(data, 9);
        let next_root = data.subrange(81, 113);
        match verify_state_check(program_id, accounts[0].key@, accounts[1].key@, accounts[3].key@, accounts[2].key@, quorum_data, cluster, qnonce, expires, slot) {
            Err(e) => Err(qfail(e)),
            Ok(_) => if next_root == quorum_root(quorum_data) {
                Err(qfail(PqQuorumAuthError::InvalidWinternitzRoot))
            } else {
                let root = quorum_root(quorum_data);
                let payload = quorum_payload_v2(QUORUM_MODE_WINTERNITZ_MLDSA, cluster, program_id, accounts[0].key@, accounts[1].key@, accounts[5].key@,
                    qnonce, expires, data.subrange(17, 49), data.subrange(49, 81), root, next_root);
                match winternitz_outcome(program_id, accounts[0].key@, accounts[1].key@, qnonce, accounts[4].owner@, accounts[4].key@, wots_data, payload, root) {
                    Err(e) => Err(qfail(e)),
                    Ok(_) => match approval_outcome(program_id, accounts[0].key@, accounts[1].key@, qnonce, QUORUM_MODE_WINTERNITZ_MLDSA, accounts[5],
                        accounts[6], accounts[7], key_data, sig_data, proof_data, payload) {
                        Err(e) => Err(qfail(e)),
                        Ok(_) => Ok(()),
                    },
                }
            },
        }
    }
}

/// Checks a Winternitz + ML-DSA approval (no Falcon call).
pub fn plan_verify_winternitz_mldsa_proof(program_id: &[u8; 32], accounts: &[AccountHeader], quorum_data: &[u8], wots_data: &[u8], key_data: &[u8],
    sig_data: &[u8], proof_data: &[u8], data: &[u8], slot: u64) -> (res: Result<ApprovalPlan, ProgramFailure>)
    ensures
        res is Ok <==> winternitz_mldsa_outcome(program_id@, accounts@, quorum_data@, wots_data@, key_data@, sig_data@, proof_data@, data@, slot) is Ok,
        res matches Err(e) ==> winternitz_mldsa_outcome(program_id@, accounts@, quorum_data@, wots_data@, key_data@, sig_data@, proof_data@, data@, slot)
            == Err::<(), ProgramFailure>(e),
        res matches Ok(plan) ==> {
            &&& plan.falcon_ix is None
            &&& plan.quorum_nonce == u64_at(data@, 1)
            &&& plan.next_root matches Some(r) && r@ == data@.subrange(81, 113)
            &&& plan.close_winternitz_buffer
            &&& plan.close_mldsa_buffers
        },
{
    if data.len() != VERIFY_WINTERNITZ_MLDSA_DATA_LEN {
        return Err(PqQuorumAuthError::InvalidInstructionData.into_failure());
    }
    if accounts.len() < 8 {
        return Err(ProgramFailure::NotEnoughAccountKeys);
    }
    let authority = accounts[0];
    let quorum = accounts[1];
    let falcon_key = accounts[2];
    let falcon_program = accounts[3];
    let wots = accounts[4];
    let mldsa_key = accounts[5];
    let mldsa_sig = accounts[6];
    let mldsa_proof = accounts[7];
    if !(authority.is_writable && quorum.is_writable && wots.is_writable && mldsa_sig.is_writable && mldsa_proof.is_writable) {
        return Err(ProgramFailure::InvalidAccountData);
    }
    if !keys_eq(&quorum.owner, program_id) {
        return Err(PqQuorumAuthError::InvalidAccountOwner.into_failure());
    }
    if !falcon_program.executable {
        return Err(PqQuorumAuthError::InvalidFalconAuthProgram.into_failure());
    }
    let keys = collect_keys(accounts, 8);
    reject_duplicate_runtime_accounts(keys.as_slice())?;
    let cluster = data[0];
    let qnonce = match read_u64(data, 1) { Some(v) => v, None => { return Err(PqQuorumAuthError::InvalidInstructionData.into_failure()); } };
    let expires = match read_u64(data, 9) { Some(v) => v, None => { return Err(PqQuorumAuthError::InvalidInstructionData.into_failure()); } };
    let domain = &data[17..49];
    let hash = &data[49..81];
    let next_root = &data[81..113];
    let state = match validate_verify_state(program_id, &authority.key, &quorum.key, &falcon_program.key, &falcon_key.key, quorum_data, cluster, qnonce, expires, slot) {
        Ok(s) => s,
        Err(e) => { return Err(e.into_failure()); },
    };
    if bytes_eq(next_root, state.winternitz_root.as_slice()) {
        return Err(PqQuorumAuthError::InvalidWinternitzRoot.into_failure());
    }
    let payload = build_quorum_action_v2_payload(QUORUM_MODE_WINTERNITZ_MLDSA, cluster, program_id.as_slice(), authority.key.as_slice(),
        quorum.key.as_slice(), mldsa_key.key.as_slice(), qnonce, expires, domain, hash, state.winternitz_root.as_slice(), next_root);
    match verify_winternitz_signature(program_id, &authority.key, &quorum.key, qnonce, &wots.owner, &wots.key, wots_data, payload.as_slice(),
        &state.winternitz_root) {
        Ok(_) => {},
        Err(e) => { return Err(e.into_failure()); },
    }
    match verify_mldsa_proof_approval(program_id, &authority.key, &quorum.key, qnonce, QUORUM_MODE_WINTERNITZ_MLDSA, &mldsa_key, &mldsa_sig, &mldsa_proof,
        key_data, sig_data, proof_data, payload.as_slice()) {
        Ok(_) => {},
        Err(e) => { return Err(e.into_failure()); },
    }
    let mut root = [0u8; 32];
    let mut k: usize = 0;
    while k < 32
        invariant
            data@.len() == 113,
            k <= 32,
            forall|i: int| 0 <= i < k ==> #[trigger] root@[i] == data@[81 + i],
        decreases 32 - k,
    {
        root[k] = data[81 + k];
        k += 1;
    }
    proof {
        assert(root@ =~= data@.subrange(81, 113));
    }
    Ok(ApprovalPlan { falcon_ix: None, quorum_nonce: qnonce, next_root: Some(root), close_winternitz_buffer: true, close_mldsa_buffers: true })
}

// ---------------------------------------------------------------------------------------
// Closing buffers.

/// Closes a program account into the authority: returns the authority's new balance and
/// zeroes the account's first (up to) eight bytes; the runtime empties its lamports.
pub fn close_program_account_to_authority(account_data: &mut [u8], account_lamports: u64, authority_lamports: u64) -> (res: Result<u64, PqQuorumAuthError>)
    ensures
        match res {
            Ok(total) => total == account_lamports + authority_lamports
                && final(account_data)@ == spliced(old(account_data)@, 0, Seq::new(if old(account_data)@.len() < 8 { old(account_data)@.len() } else { 8 }, |i: int| 0u8)),
            Err(e) => e == PqQuorumAuthError::ArithmeticOverflow && account_lamports + authority_lamports > u64::MAX
                && final(account_data)@ == old(account_data)@,
        },
{
    let total = match authority_lamports.checked_add(account_lamports) {
        Some(t) => t,
        None => { return Err(PqQuorumAuthError::ArithmeticOverflow); },
    };
    let len = account_data.len();
    let clear = if len < 8 { len } else { 8 };
    fill_bytes(account_data, 0, clear, 0);
    Ok(total)
}

// ---------------------------------------------------------------------------------------
// Laws.

/// Once an approval has advanced the quorum account, the same approval is refused: the
/// quorum nonce moved on (and, for Winternitz quorums, the root was rotated away from the
/// one the old signature recovers).
pub proof fn law_approval_not_replayable(program_id: Seq<u8>, authority: Seq<u8>, quorum: Seq<u8>, falcon_auth_program: Seq<u8>, falcon_key: Seq<u8>,
    d: Seq<u8>, cluster: u8, nonce: u64, next_root: Option<Seq<u8>>, expires_slot: u64, slot: u64)
    requires
        quorum_state_check(program_id, authority, quorum, falcon_auth_program, falcon_key, d) is Ok,
        quorum_nonce(d) == nonce,
        nonce < u64::MAX,
        next_root matches Some(r) ==> r.len() == 32,
    ensures
        verify_state_check(program_id, authority, quorum, falcon_auth_program, falcon_key, advanced_quorum(d, nonce, next_root), cluster, nonce,
            expires_slot, slot) is Err,
        next_root matches Some(r) ==> quorum_root(advanced_quorum(d, nonce, next_root)) == r,
{
    vstd::bytes::lemma_auto_spec_u64_to_from_le_bytes();
    let e = advanced_quorum(d, nonce, next_root);
    assert(e.len() == d.len());
    assert(e.subrange(140, 148) =~= vstd::bytes::spec_u64_to_le_bytes((nonce + 1) as u64));
    assert(e.subrange(0, 108) =~= d.subrange(0, 108));
    assert(e.subrange(0, 8) =~= d.subrange(0, 8));
    assert(e.subrange(12, 44) =~= d.subrange(12, 44));
    assert(e.subrange(44, 76) =~= d.subrange(44, 76));
    assert(e.subrange(76, 108) =~= d.subrange(76, 108));
    assert(e[8] == d[8] && e[9] == d[9] && e[10] == d[10] && e[11] == d[11]);
    if next_root is Some {
        assert(quorum_root(e) =~= next_root->0);
    }
}

/// A Falcon + Winternitz approval passes its checks only when: the instruction has its
/// fixed length; the five accounts are there, writable where the approval writes, the quorum
/// is the program's, the Falcon program is executable and no account repeats; the action is
/// unexpired at `slot`; the quorum account passes its checks; its cluster (byte 10) is the
/// instruction's cluster and its nonce the instruction's quorum nonce; the next root differs
/// from the current one; and the Winternitz signature recovers the current root from the v1
/// payload, which binds cluster, program, authority, quorum, nonce, expiry, action and next root.
pub proof fn law_falcon_winternitz_requirements(program_id: Seq<u8>, accounts: Seq<AccountHeader>, quorum_data: Seq<u8>, wots_data: Seq<u8>,
    data: Seq<u8>, slot: u64)
    ensures
        falcon_winternitz_outcome(program_id, accounts, quorum_data, wots_data, data, slot) is Ok ==> {
            &&& data.len() == VERIFY_FALCON_WINTERNITZ_DATA_LEN
            &&& accounts.len() >= 5
            &&& accounts[0].is_writable && accounts[1].is_writable && accounts[2].is_writable && accounts[4].is_writable
            &&& accounts[1].owner@ == program_id
            &&& accounts[3].executable
            &&& keys_distinct(account_keys(accounts, 5))
            &&& slot <= u64_at(data, 17)
            &&& quorum_state_check(program_id, accounts[0].key@, accounts[1].key@, accounts[3].key@, accounts[2].key@, quorum_data) is Ok
            &&& quorum_data[10] == data[0]
            &&& quorum_nonce(quorum_data) == u64_at(data, 1)
            &&& data.subrange(89, 121) != quorum_root(quorum_data)
            &&& winternitz_outcome(program_id, accounts[0].key@, accounts[1].key@, u64_at(data, 1), accounts[4].owner@, accounts[4].key@, wots_data,
                quorum_payload(data[0], program_id, accounts[0].key@, accounts[1].key@, u64_at(data, 1), u64_at(data, 17), data.subrange(25, 57),
                    data.subrange(57, 89), data.subrange(89, 121)), quorum_root(quorum_data)) is Ok
        },
{
    if falcon_winternitz_outcome(program_id, accounts, quorum_data, wots_data, data, slot) is Ok {
        crate::quorum::state::law_verify_state_binds_cluster_and_nonce(program_id, accounts[0].key@, accounts[1].key@, accounts[3].key@,
            accounts[2].key@, quorum_data, data[0], u64_at(data, 1), u64_at(data, 17), slot);
    }
}

/// A Falcon + ML-DSA approval passes its checks only when: the instruction has its fixed
/// length; the seven accounts are there, writable where the approval writes, the quorum is
/// the program's, the Falcon program is executable and no account repeats; the action is
/// unexpired; the quorum account passes its checks with the instruction's cluster and quorum
/// nonce; and the completed ML-DSA proof accepts the v2 payload (mode Falcon + ML-DSA, the
/// ML-DSA key account, and the current root as both roots).
pub proof fn law_falcon_mldsa_requirements(program_id: Seq<u8>, accounts: Seq<AccountHeader>, quorum_data: Seq<u8>, key_data: Seq<u8>,
    sig_data: Seq<u8>, proof_data: Seq<u8>, data: Seq<u8>, slot: u64)
    ensures
        falcon_mldsa_outcome(program_id, accounts, quorum_data, key_data, sig_data, proof_data, data, slot) is Ok ==> {
            &&& data.len() == VERIFY_FALCON_MLDSA_DATA_LEN
            &&& accounts.len() >= 7
            &&& accounts[0].is_writable && accounts[1].is_writable && accounts[2].is_writable && accounts[5].is_writable && accounts[6].is_writable
            &&& accounts[1].owner@ == program_id
            &&& accounts[3].executable
            &&& keys_distinct(account_keys(accounts, 7))
            &&& slot <= u64_at(data, 17)
            &&& quorum_state_check(program_id, accounts[0].key@, accounts[1].key@, accounts[3].key@, accounts[2].key@, quorum_data) is Ok
            &&& quorum_data[10] == data[0]
            &&& quorum_nonce(quorum_data) == u64_at(data, 1)
            &&& approval_outcome(program_id, accounts[0].key@, accounts[1].key@, u64_at(data, 1), QUORUM_MODE_FALCON_MLDSA, accounts[4],
                accounts[5], accounts[6], key_data, sig_data, proof_data,
                quorum_payload_v2(QUORUM_MODE_FALCON_MLDSA, data[0], program_id, accounts[0].key@, accounts[1].key@, accounts[4].key@,
                    u64_at(data, 1), u64_at(data, 17), data.subrange(25, 57), data.subrange(57, 89), quorum_root(quorum_data),
                    quorum_root(quorum_data))) is Ok
        },
{
    if falcon_mldsa_outcome(program_id, accounts, quorum_data, key_data, sig_data, proof_data, data, slot) is Ok {
        crate::quorum::state::law_verify_state_binds_cluster_and_nonce(program_id, accounts[0].key@, accounts[1].key@, accounts[3].key@,
            accounts[2].key@, quorum_data, data[0], u64_at(data, 1), u64_at(data, 17), slot);
    }
}

/// A Winternitz + ML-DSA approval passes its checks only when: the instruction has its
/// fixed length; the eight accounts are there, writable where the approval writes, the quorum
/// is the program's, the Falcon program is executable and no account repeats; the action is
/// unexpired; the quorum account passes its checks, its cluster (byte 10) is the
/// instruction's cluster and its nonce the instruction's quorum nonce; the next root differs
/// from the current one; the Winternitz signature recovers the current root from the v2
/// payload; and the completed ML-DSA proof accepts the same payload.
pub proof fn law_winternitz_mldsa_requirements(program_id: Seq<u8>, accounts: Seq<AccountHeader>, quorum_data: Seq<u8>, wots_data: Seq<u8>,
    key_data: Seq<u8>, sig_data: Seq<u8>, proof_data: Seq<u8>, data: Seq<u8>, slot: u64)
    ensures
        winternitz_mldsa_outcome(program_id, accounts, quorum_data, wots_data, key_data, sig_data, proof_data, data, slot) is Ok ==> {
            let payload = quorum_payload_v2(QUORUM_MODE_WINTERNITZ_MLDSA, data[0], program_id, accounts[0].key@, accounts[1].key@,
                accounts[5].key@, u64_at(data, 1), u64_at(data, 9), data.subrange(17, 49), data.subrange(49, 81), quorum_root(quorum_data),
                data.subrange(81, 113));
            &&& data.len() == VERIFY_WINTERNITZ_MLDSA_DATA_LEN
            &&& accounts.len() >= 8
            &&& accounts[0].is_writable && accounts[1].is_writable && accounts[4].is_writable && accounts[6].is_writable && accounts[7].is_writable
            &&& accounts[1].owner@ == program_id
            &&& accounts[3].executable
            &&& keys_distinct(account_keys(accounts, 8))
            &&& slot <= u64_at(data, 9)
            &&& quorum_state_check(program_id, accounts[0].key@, accounts[1].key@, accounts[3].key@, accounts[2].key@, quorum_data) is Ok
            &&& quorum_data[10] == data[0]
            &&& quorum_nonce(quorum_data) == u64_at(data, 1)
            &&& data.subrange(81, 113) != quorum_root(quorum_data)
            &&& winternitz_outcome(program_id, accounts[0].key@, accounts[1].key@, u64_at(data, 1), accounts[4].owner@, accounts[4].key@, wots_data,
                payload, quorum_root(quorum_data)) is Ok
            &&& approval_outcome(program_id, accounts[0].key@, accounts[1].key@, u64_at(data, 1), QUORUM_MODE_WINTERNITZ_MLDSA, accounts[5],
                accounts[6], accounts[7], key_data, sig_data, proof_data, payload) is Ok
        },
{
    if winternitz_mldsa_outcome(program_id, accounts, quorum_data, wots_data, key_data, sig_data, proof_data, data, slot) is Ok {
        crate::quorum::state::law_verify_state_binds_cluster_and_nonce(program_id, accounts[0].key@, accounts[1].key@, accounts[3].key@,
            accounts[2].key@, quorum_data, data[0], u64_at(data, 1), u64_at(data, 9), slot);
    }
}

} // verus!
