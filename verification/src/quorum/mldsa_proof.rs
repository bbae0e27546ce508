//! ML-DSA key and signature upload buffers, and the proof account that carries a split
//! ML-DSA-44 verification across transactions: challenge, `z` columns, matrix columns per
//! row, then rows of `w1`.
use vstd::prelude::*;
use vstd::bytes::{spec_u64_from_le_bytes, spec_u64_to_le_bytes, spec_u16_from_le_bytes, u64_to_le_bytes};
use crate::mldsa44::protocol::{
    az_term, az_partial, w_approx, w1_row_from, t1_scaled, prepared_ntt_exact, prepared_ntt_mont_exact, prepared_ntt, prepared_ntt_mont, prepared_key_layout, challenge_poly, z_poly,
    z_column_valid, matrix_entry, challenge_of, sig_hints, mldsa44_accepts, w1_of, lemma_mont_product, lemma_finalized_row_matches,
    prepare_mldsa44_challenge, prepare_mldsa44_z_column, accumulate_mldsa44_column, finalize_mldsa44_row, finalize_mldsa44_proof,
    commitment_matches, sig_ctilde, MLDSA44_PUBLIC_KEY_LEN, MLDSA44_SIGNATURE_LEN, MLDSA44_PREPARED_PUBLIC_KEY_LEN,
    MLDSA44_PREPARED_SIGNATURE_LEN,
};
use crate::runtime::{AccountHeader, ProgramFailure, keys_eq, bytes_eq, read_u64, read_u16, write_bytes, fill_bytes, spliced};
use crate::quorum::state::{
    PqQuorumAuthError, qfail, VERSION, MLDSA_PUBLIC_KEY_SEED, MLDSA_SIGNATURE_SEED, MLDSA_PROOF_SEED, nonce_seeds, key_buffer_seeds,
    pda_check, validate_nonce_pda, validate_mldsa_public_key_pda, is_mldsa_quorum_mode, QUORUM_MODE_FALCON_MLDSA,
    QUORUM_MODE_WINTERNITZ_MLDSA, keys_distinct, reject_duplicate_runtime_accounts, validate_quorum_authority, quorum_authority_check,
};
use crate::mldsa44::arith::{q, cong, lemma_cong_add};
use crate::mldsa44::encode::spec_hints_valid;
use crate::mldsa44::layout::{prepared_poly_within, prepared_coeff, same_outside, read_prepared_coeff};
use crate::mldsa44::ntt::{ntt_out_bound, spec_ntt};
use crate::quorum::wots::{write_buffer_header, buffer_header, buffer_fields_match, check_buffer_fields, buffer_nonce, buffer_written};

verus! {

/// `b"MLDSAPK1"`
pub const MLDSA_PUBLIC_KEY_DISCRIMINATOR: [u8; 8] = [77, 76, 68, 83, 65, 80, 75, 49];
/// `b"MLDSASG1"`
pub const MLDSA_SIGNATURE_DISCRIMINATOR: [u8; 8] = [77, 76, 68, 83, 65, 83, 71, 49];
/// `b"MLDSAPF1"`
pub const MLDSA_PROOF_DISCRIMINATOR: [u8; 8] = [77, 76, 68, 83, 65, 80, 70, 49];

pub const MLDSA_PUBLIC_KEY_BUFFER_LEN: usize = 5558;
pub const MLDSA_SIGNATURE_BUFFER_LEN: usize = 2506;

pub const PROOF_ROW_MASK_OFFSET: usize = 10;
pub const PROOF_MODE_OFFSET: usize = 11;
pub const PROOF_NONCE_OFFSET: usize = 76;
pub const PROOF_PAYLOAD_HASH_OFFSET: usize = 148;
pub const PROOF_W1_OFFSET: usize = 180;
pub const PROOF_PREPARED_FLAG_OFFSET: usize = 948;
pub const PROOF_Z_MASK_OFFSET: usize = 949;
pub const PROOF_COLUMN_MASK_OFFSET: usize = 950;
pub const PROOF_PREPARED_SIGNATURE_OFFSET: usize = 954;
pub const PROOF_AZ_OFFSET: usize = 6074;
pub const MLDSA_PROOF_ACCOUNT_LEN: usize = 10170;
pub const MLDSA_PROOF_COMPLETE_MASK: u8 = 15;

// ---------------------------------------------------------------------------------------
// Upload buffers.

/// Writes the header of an ML-DSA key or signature buffer.
pub fn write_mldsa_buffer_header(data: &mut [u8], discriminator: &[u8], bump: u8, authority: &[u8], quorum: &[u8], nonce: u64) -> (res: Result<(), ProgramFailure>)
    requires
        discriminator@.len() == 8,
    ensures
        res is Ok <==> (authority@.len() == 32 && quorum@.len() == 32 && old(data)@.len() >= 86),
        res is Err ==> res == Err::<(), ProgramFailure>(ProgramFailure::AccountDataTooSmall) && final(data)@ == old(data)@,
        res is Ok ==> final(data)@ == buffer_header(discriminator@, bump, authority@, quorum@, nonce) + Seq::new((old(data)@.len() - 86) as nat, |i: int| 0u8),
{
    if authority.len() != 32 || quorum.len() != 32 || data.len() < 86 {
        return Err(ProgramFailure::AccountDataTooSmall);
    }
    write_buffer_header(data, discriminator, bump, authority, quorum, nonce);
    Ok(())
}

/// The checks of an ML-DSA upload buffer. The key buffer is one per quorum; a signature
/// buffer is per quorum nonce.
pub open spec fn mldsa_buffer_check(program_id: Seq<u8>, authority: Seq<u8>, quorum: Seq<u8>, nonce: u64, buffer: Seq<u8>, d: Seq<u8>,
    is_key: bool, error: PqQuorumAuthError) -> Result<(), PqQuorumAuthError> {
    let disc = if is_key { MLDSA_PUBLIC_KEY_DISCRIMINATOR@ } else { MLDSA_SIGNATURE_DISCRIMINATOR@ };
    let len = if is_key { MLDSA_PUBLIC_KEY_BUFFER_LEN } else { MLDSA_SIGNATURE_BUFFER_LEN };
    if d.len() != len || !buffer_fields_match(d, disc, authority, quorum) {
        Err(error)
    } else if !is_key && buffer_nonce(d) != nonce {
        Err(error)
    } else if is_key {
        pda_check(key_buffer_seeds(authority, quorum), program_id, buffer, d[9])
    } else {
        pda_check(nonce_seeds(MLDSA_SIGNATURE_SEED@, authority, quorum, nonce), program_id, buffer, d[9])
    }
}

/// Checks an ML-DSA key (`is_key`) or signature buffer.
pub fn validate_mldsa_buffer_header(program_id: &[u8; 32], authority: &[u8; 32], quorum: &[u8; 32], nonce: u64, buffer: &[u8; 32], data: &[u8],
    is_key: bool, error: PqQuorumAuthError) -> (res: Result<(), PqQuorumAuthError>)
    ensures
        res == mldsa_buffer_check(program_id@, authority@, quorum@, nonce, buffer@, data@, is_key, error),
{
    let disc: &[u8] = if is_key { MLDSA_PUBLIC_KEY_DISCRIMINATOR.as_slice() } else { MLDSA_SIGNATURE_DISCRIMINATOR.as_slice() };
    let len = if is_key { MLDSA_PUBLIC_KEY_BUFFER_LEN } else { MLDSA_SIGNATURE_BUFFER_LEN };
    if data.len() != len || !check_buffer_fields(data, disc, authority, quorum) {
        return Err(error);
    }
    if !is_key {
        match read_u64(data, 76) {
            Some(v) => if v != nonce { return Err(error); },
            None => { return Err(error); },
        }
    }
    if is_key {
        validate_mldsa_public_key_pda(program_id, authority, quorum, buffer, data[9])
    } else {
        validate_nonce_pda(MLDSA_SIGNATURE_SEED.as_slice(), program_id, authority, quorum, nonce, buffer, data[9])
    }
}

/// Both buffers are complete: the key buffer holds a prepared key, the signature buffer a
/// whole signature for quorum nonce `nonce`.
pub open spec fn mldsa_buffers_check(program_id: Seq<u8>, authority: Seq<u8>, quorum: Seq<u8>, nonce: u64, key: Seq<u8>, key_data: Seq<u8>,
    sig: Seq<u8>, sig_data: Seq<u8>) -> Result<(), PqQuorumAuthError> {
    match mldsa_buffer_check(program_id, authority, quorum, 0, key, key_data, true, PqQuorumAuthError::InvalidMldsaPublicKey) {
        Err(e) => Err(e),
        Ok(_) => if buffer_written(key_data) != MLDSA44_PREPARED_PUBLIC_KEY_LEN {
            Err(PqQuorumAuthError::InvalidMldsaPublicKey)
        } else {
            match mldsa_buffer_check(program_id, authority, quorum, nonce, sig, sig_data, false, PqQuorumAuthError::InvalidMldsaSignature) {
                Err(e) => Err(e),
                Ok(_) => if buffer_written(sig_data) != MLDSA44_SIGNATURE_LEN { Err(PqQuorumAuthError::InvalidMldsaSignature) } else { Ok(()) },
            }
        },
    }
}

/// Checks the key and signature buffers together.
pub fn validate_mldsa_buffer_data(program_id: &[u8; 32], authority: &[u8; 32], quorum: &[u8; 32], nonce: u64, key: &[u8; 32], key_data: &[u8],
    sig: &[u8; 32], sig_data: &[u8]) -> (res: Result<(), PqQuorumAuthError>)
    ensures
        res == mldsa_buffers_check(program_id@, authority@, quorum@, nonce, key@, key_data@, sig@, sig_data@),
{
    validate_mldsa_buffer_header(program_id, authority, quorum, 0, key, key_data, true, PqQuorumAuthError::InvalidMldsaPublicKey)?;
    match read_u16(key_data, 84) {
        Some(w) => if w as usize != MLDSA44_PREPARED_PUBLIC_KEY_LEN { return Err(PqQuorumAuthError::InvalidMldsaPublicKey); },
        None => { return Err(PqQuorumAuthError::InvalidMldsaPublicKey); },
    }
    validate_mldsa_buffer_header(program_id, authority, quorum, nonce, sig, sig_data, false, PqQuorumAuthError::InvalidMldsaSignature)?;
    match read_u16(sig_data, 84) {
        Some(w) => if w as usize != MLDSA44_SIGNATURE_LEN { return Err(PqQuorumAuthError::InvalidMldsaSignature); },
        None => { return Err(PqQuorumAuthError::InvalidMldsaSignature); },
    }
    Ok(())
}

// ---------------------------------------------------------------------------------------
// The proof account.

/// A fresh proof account: header, then zeroes (no step done yet).
pub open spec fn proof_account_init(bump: u8, mode: u8, authority: Seq<u8>, quorum: Seq<u8>, nonce: u64, key: Seq<u8>, sig: Seq<u8>, payload_hash: Seq<u8>) -> Seq<u8> {
    MLDSA_PROOF_DISCRIMINATOR@ + seq![VERSION, bump, 0u8, mode] + authority + quorum + spec_u64_to_le_bytes(nonce) + key + sig + payload_hash
        + Seq::new(9990, |i: int| 0u8)
}

/// Writes a fresh proof account.
pub fn write_mldsa_proof_state(data: &mut [u8], bump: u8, mode: u8, authority: &[u8], quorum: &[u8], nonce: u64, key: &[u8], sig: &[u8],
    payload_hash: &[u8; 32]) -> (res: Result<(), ProgramFailure>)
    ensures
        res is Ok <==> (old(data)@.len() == MLDSA_PROOF_ACCOUNT_LEN && authority@.len() == 32 && quorum@.len() == 32 && key@.len() == 32 && sig@.len() == 32),
        res is Err ==> res == Err::<(), ProgramFailure>(ProgramFailure::AccountDataTooSmall) && final(data)@ == old(data)@,
        res is Ok ==> final(data)@ == proof_account_init(bump, mode, authority@, quorum@, nonce, key@, sig@, payload_hash@),
{
    if data.len() != MLDSA_PROOF_ACCOUNT_LEN || authority.len() != 32 || quorum.len() != 32 || key.len() != 32 || sig.len() != 32 {
        return Err(ProgramFailure::AccountDataTooSmall);
    }
    fill_bytes(data, 0, MLDSA_PROOF_ACCOUNT_LEN, 0);
    write_bytes(data, 0, MLDSA_PROOF_DISCRIMINATOR.as_slice());
    data[8] = VERSION;
    data[9] = bump;
    data[PROOF_ROW_MASK_OFFSET] = 0;
    data[PROOF_MODE_OFFSET] = mode;
    write_bytes(data, 12, authority);
    write_bytes(data, 44, quorum);
    let nonce_bytes = u64_to_le_bytes(nonce);
    write_bytes(data, PROOF_NONCE_OFFSET, nonce_bytes.as_slice());
    write_bytes(data, 84, key);
    write_bytes(data, 116, sig);
    write_bytes(data, PROOF_PAYLOAD_HASH_OFFSET, payload_hash.as_slice());
    proof {
        assert(data@ =~= proof_account_init(bump, mode, authority@, quorum@, nonce, key@, sig@, payload_hash@));
    }
    Ok(())
}

pub open spec fn proof_nonce(d: Seq<u8>) -> u64 {
    spec_u64_from_le_bytes(d.subrange(76, 84))
}

/// The checks of a proof account. `expected_mode` and `payload_hash` are checked when given.
pub open spec fn proof_header_check(program_id: Seq<u8>, authority: Seq<u8>, quorum: Seq<u8>, proof: Seq<u8>, d: Seq<u8>, expected_mode: Option<u8>,
    key: Seq<u8>, sig: Seq<u8>, payload_hash: Option<Seq<u8>>) -> Result<(), PqQuorumAuthError> {
    if !(d.len() == MLDSA_PROOF_ACCOUNT_LEN && d.subrange(0, 8) == MLDSA_PROOF_DISCRIMINATOR@ && d[8] == VERSION
        && (d[11] == QUORUM_MODE_FALCON_MLDSA || d[11] == QUORUM_MODE_WINTERNITZ_MLDSA)
        && d.subrange(12, 44) == authority && d.subrange(44, 76) == quorum && d.subrange(84, 116) == key && d.subrange(116, 148) == sig) {
        Err(PqQuorumAuthError::InvalidMldsaProof)
    } else if (expected_mode matches Some(m) && d[11] != m) || (payload_hash matches Some(h) && d.subrange(148, 180) != h) {
        Err(PqQuorumAuthError::InvalidMldsaProof)
    } else if d[10] >= 16 || d[948] > 1 || d[949] >= 16 || d[950] >= 16 || d[951] >= 16 || d[952] >= 16 || d[953] >= 16 {
        Err(PqQuorumAuthError::InvalidMldsaProof)
    } else {
        pda_check(nonce_seeds(MLDSA_PROOF_SEED@, authority, quorum, proof_nonce(d)), program_id, proof, d[9])
    }
}

/// What the proof steps read of a proof account.
#[derive(Clone, Copy)]
pub struct MldsaProofState {
    pub row_mask: u8,
    pub quorum_nonce: u64,
}

/// Checks a proof account and reads its row mask and quorum nonce.
pub fn validate_mldsa_proof_header(program_id: &[u8; 32], authority: &[u8; 32], quorum: &[u8; 32], proof: &[u8; 32], data: &[u8],
    expected_mode: Option<u8>, key: &[u8; 32], sig: &[u8; 32], payload_hash: Option<&[u8; 32]>) -> (res: Result<MldsaProofState, PqQuorumAuthError>)
    ensures
        match res {
            Ok(s) => proof_header_check(program_id@, authority@, quorum@, proof@, data@, expected_mode, key@, sig@,
                match payload_hash { Some(h) => Some(h@), None => None }) is Ok && s.row_mask == data@[10] && s.quorum_nonce == proof_nonce(data@),
            Err(e) => proof_header_check(program_id@, authority@, quorum@, proof@, data@, expected_mode, key@, sig@,
                match payload_hash { Some(h) => Some(h@), None => None }) == Err::<(), PqQuorumAuthError>(e),
        },
{
    if !(data.len() == MLDSA_PROOF_ACCOUNT_LEN && bytes_eq(&data[0..8], MLDSA_PROOF_DISCRIMINATOR.as_slice()) && data[8] == VERSION
        && is_mldsa_quorum_mode(data[PROOF_MODE_OFFSET]) && bytes_eq(&data[12..44], authority.as_slice()) && bytes_eq(&data[44..76], quorum.as_slice())
        && bytes_eq(&data[84..116], key.as_slice()) && bytes_eq(&data[116..148], sig.as_slice())) {
        return Err(PqQuorumAuthError::InvalidMldsaProof);
    }
    match expected_mode {
        Some(m) => if data[PROOF_MODE_OFFSET] != m { return Err(PqQuorumAuthError::InvalidMldsaProof); },
        None => {},
    }
    match payload_hash {
        Some(h) => if !bytes_eq(&data[148..180], h.as_slice()) { return Err(PqQuorumAuthError::InvalidMldsaProof); },
        None => {},
    }
    if data[PROOF_ROW_MASK_OFFSET] >= 16 || data[PROOF_PREPARED_FLAG_OFFSET] > 1 || data[PROOF_Z_MASK_OFFSET] >= 16
        || data[950] >= 16 || data[951] >= 16 || data[952] >= 16 || data[953] >= 16 {
        return Err(PqQuorumAuthError::InvalidMldsaProof);
    }
    let nonce = match read_u64(data, PROOF_NONCE_OFFSET) { Some(v) => v, None => { return Err(PqQuorumAuthError::InvalidMldsaProof); } };
    validate_nonce_pda(MLDSA_PROOF_SEED.as_slice(), program_id, authority, quorum, nonce, proof, data[9])?;
    Ok(MldsaProofState { row_mask: data[PROOF_ROW_MASK_OFFSET], quorum_nonce: nonce })
}

// ---------------------------------------------------------------------------------------
// Proof steps (accounts: authority, quorum, proof, key buffer, signature buffer).

/// The checks every proof step makes before its own.
pub open spec fn proof_step_check(program_id: Seq<u8>, accounts: Seq<AccountHeader>, quorum_data: Seq<u8>, key_data: Seq<u8>, sig_data: Seq<u8>,
    d: Seq<u8>) -> Result<(), ProgramFailure> {
    if accounts.len() < 5 {
        Err(ProgramFailure::NotEnoughAccountKeys)
    } else if !accounts[0].is_signer {
        Err(ProgramFailure::MissingRequiredSignature)
    } else if !accounts[2].is_writable {
        Err(ProgramFailure::InvalidAccountData)
    } else if accounts[1].owner@ != program_id || accounts[2].owner@ != program_id || accounts[3].owner@ != program_id
        || accounts[4].owner@ != program_id {
        Err(qfail(PqQuorumAuthError::InvalidAccountOwner))
    } else if !keys_distinct(accounts.take(5).map_values(|a: AccountHeader| a.key)) {
        Err(ProgramFailure::InvalidArgument)
    } else if !quorum_authority_check(accounts[0].key@, quorum_data) {
        Err(qfail(PqQuorumAuthError::InvalidAccountData))
    } else {
        match proof_header_check(program_id, accounts[0].key@, accounts[1].key@, accounts[2].key@, d, None, accounts[3].key@, accounts[4].key@, None) {
            Err(e) => Err(qfail(e)),
            Ok(_) => match mldsa_buffers_check(program_id, accounts[0].key@, accounts[1].key@, proof_nonce(d), accounts[3].key@, key_data,
                accounts[4].key@, sig_data) {
                Err(e) => Err(qfail(e)),
                Ok(_) => Ok(()),
            },
        }
    }
}

fn check_proof_step(program_id: &[u8; 32], accounts: &[AccountHeader], quorum_data: &[u8], key_data: &[u8], sig_data: &[u8], proof_data: &[u8])
    -> (res: Result<MldsaProofState, ProgramFailure>)
    ensures
        match res {
            Ok(s) => proof_step_check(program_id@, accounts@, quorum_data@, key_data@, sig_data@, proof_data@) is Ok
                && s.row_mask == proof_data@[10] && s.quorum_nonce == proof_nonce(proof_data@) && proof_data@.len() == MLDSA_PROOF_ACCOUNT_LEN
                && key_data@.len() == MLDSA_PUBLIC_KEY_BUFFER_LEN && sig_data@.len() == MLDSA_SIGNATURE_BUFFER_LEN,
            Err(e) => proof_step_check(program_id@, accounts@, quorum_data@, key_data@, sig_data@, proof_data@) == Err::<(), ProgramFailure>(e),
        },
{
    if accounts.len() < 5 {
        return Err(ProgramFailure::NotEnoughAccountKeys);
    }
    let authority = accounts[0];
    let quorum = accounts[1];
    let proof = accounts[2];
    let key = accounts[3];
    let sig = accounts[4];
    if !authority.is_signer {
        return Err(ProgramFailure::MissingRequiredSignature);
    }
    if !proof.is_writable {
        return Err(ProgramFailure::InvalidAccountData);
    }
    if !keys_eq(&quorum.owner, program_id) || !keys_eq(&proof.owner, program_id) || !keys_eq(&key.owner, program_id) || !keys_eq(&sig.owner, program_id) {
        return Err(PqQuorumAuthError::InvalidAccountOwner.into_failure());
    }
    let keys = [authority.key, quorum.key, proof.key, key.key, sig.key];
    proof {
        assert(keys@ =~= accounts@.take(5).map_values(|a: AccountHeader| a.key));
    }
    reject_duplicate_runtime_accounts(keys.as_slice())?;
    if validate_quorum_authority(&authority.key, quorum_data).is_err() {
        return Err(PqQuorumAuthError::InvalidAccountData.into_failure());
    }
    let state = match validate_mldsa_proof_header(program_id, &authority.key, &quorum.key, &proof.key, proof_data, None, &key.key, &sig.key, None) {
        Ok(s) => s,
        Err(e) => { return Err(e.into_failure()); },
    };
    match validate_mldsa_buffer_data(program_id, &authority.key, &quorum.key, state.quorum_nonce, &key.key, key_data, &sig.key, sig_data) {
        Ok(_) => {},
        Err(e) => { return Err(e.into_failure()); },
    }
    Ok(state)
}

/// The signature stored in a complete signature buffer.
pub open spec fn buffered_signature(sig_data: Seq<u8>) -> Seq<u8> {
    sig_data.subrange(86, 2506)
}

/// The prepared key stored in a complete key buffer.
pub open spec fn buffered_prepared_key(key_data: Seq<u8>) -> Seq<u8> {
    key_data.subrange(86, 5558)
}

/// The prepared signature area of a proof account.
pub open spec fn proof_prepared(d: Seq<u8>) -> Seq<u8> {
    d.subrange(954, 6074)
}

/// Outcome of the challenge step (`data` empty).
pub open spec fn prepare_proof_outcome(program_id: Seq<u8>, accounts: Seq<AccountHeader>, quorum_data: Seq<u8>, key_data: Seq<u8>, sig_data: Seq<u8>,
    d: Seq<u8>, data: Seq<u8>) -> Result<(), ProgramFailure> {
    if data.len() != 0 {
        Err(qfail(PqQuorumAuthError::InvalidInstructionData))
    } else {
        match proof_step_check(program_id, accounts, quorum_data, key_data, sig_data, d) {
            Err(e) => Err(e),
            Ok(_) => if d[10] != 0 || d[948] != 0 || d[949] != 0 {
                Err(qfail(PqQuorumAuthError::InvalidMldsaProof))
            } else if !(crate::mldsa44::protocol::challenge_of(buffered_signature(sig_data)) is Some
                && crate::mldsa44::encode::spec_hints_valid(crate::mldsa44::protocol::sig_hints(buffered_signature(sig_data)))) {
                Err(qfail(PqQuorumAuthError::InvalidMldsaSignature))
            } else {
                Ok(())
            },
        }
    }
}

/// Copies `len` bytes at `at` out of `src`.
fn copy_out(src: &[u8], at: usize, len: usize) -> (out: Vec<u8>)
    requires
        at + len <= src@.len(),
    ensures
        out@ == src@.subrange(at as int, at + len),
{
    let src_len = src.len();
    assert(at + len <= src_len);
    let mut out: Vec<u8> = Vec::new();
    crate::mldsa44::protocol::append_bytes(&mut out, &src[at..at + len]);
    out
}

/// The challenge step: stores the challenge's NTT in the proof account and sets the
/// prepared flag.
pub fn process_prepare_mldsa_proof(program_id: &[u8; 32], accounts: &[AccountHeader], quorum_data: &[u8], key_data: &[u8], sig_data: &[u8],
    proof_data: &mut [u8], data: &[u8]) -> (res: Result<(), ProgramFailure>)
    requires
        proof_wf(old(proof_data)@),
    ensures
        proof_wf(final(proof_data)@),
        res == prepare_proof_outcome(program_id@, accounts@, quorum_data@, key_data@, sig_data@, old(proof_data)@, data@),
        res is Err ==> final(proof_data)@ == old(proof_data)@,
        res is Ok ==> final(proof_data)@.len() == old(proof_data)@.len() && final(proof_data)@[948] == 1
            && forall|k: int| 0 <= k < 948 ==> #[trigger] final(proof_data)@[k] == old(proof_data)@[k],
        proof_sound(old(proof_data)@, key_data@, sig_data@) ==> proof_sound(final(proof_data)@, key_data@, sig_data@),
        res is Ok ==> (forall|k: int| 949 <= k < 954 || 6074 <= k < final(proof_data)@.len() ==> #[trigger] final(proof_data)@[k] == old(proof_data)@[k])
            && prepared_ntt_exact(proof_prepared(final(proof_data)@), 0, challenge_poly(buffered_signature(sig_data@)))
            && (forall|k: int| 1024 <= k < 5120 ==> #[trigger] proof_prepared(final(proof_data)@)[k] == 0),
        proof_masks_ok(old(proof_data)@) ==> proof_masks_ok(final(proof_data)@),
        masks_grow(old(proof_data)@, final(proof_data)@),
{
    if data.len() != 0 {
        return Err(PqQuorumAuthError::InvalidInstructionData.into_failure());
    }
    let _state = check_proof_step(program_id, accounts, quorum_data, key_data, sig_data, proof_data)?;
    if proof_data[PROOF_ROW_MASK_OFFSET] != 0 || proof_data[PROOF_PREPARED_FLAG_OFFSET] != 0 || proof_data[PROOF_Z_MASK_OFFSET] != 0 {
        return Err(PqQuorumAuthError::InvalidMldsaProof.into_failure());
    }
    let signature = &sig_data[86..2506];
    let mut prepared = copy_out(proof_data, PROOF_PREPARED_SIGNATURE_OFFSET, MLDSA44_PREPARED_SIGNATURE_LEN);
    if !prepare_mldsa44_challenge(signature, prepared.as_mut_slice()) {
        return Err(PqQuorumAuthError::InvalidMldsaSignature.into_failure());
    }
    write_bytes(proof_data, PROOF_PREPARED_SIGNATURE_OFFSET, prepared.as_slice());
    proof_data[PROOF_PREPARED_FLAG_OFFSET] = 1;
    proof {
        let d = proof_data@;
        assert forall|k: int| 0 <= k < 1024 implies #[trigger] d[954 + k] == prepared@[0 + k] by {}
        lemma_coeffs_shift(d, 954, prepared@, 0);
        assert forall|n: int| 0 <= n < 256 implies -ntt_out_bound() <= #[trigger] prepared_coeff(d, 954, n) <= ntt_out_bound() by {
            assert(prepared_coeff(d, 954, n) == prepared_coeff(prepared@, 0, n));
        }
        lemma_wf_prefix_change(old(proof_data)@, d);
        let d0 = old(proof_data)@;
        if proof_sound(d0, key_data@, sig_data@) {
            let pk = buffered_public_key(key_data@);
            let sig = buffered_signature(sig_data@);
            assert(signature@ == sig);
            assert(proof_prepared(d) =~= prepared@);
            assert(d[949] == 0 && d[10] == 0);
            assert forall|r: int, n: int| 0 <= r < 4 && 0 <= n < 256 implies #[trigger] cong(prepared_coeff(d, 6074 + 1024 * r, n),
                az_masked(pk, sig, r, d[950 + r] as int, n)) by {
                let b = 6074 + 1024 * r + 4 * n;
                assert(d[b] == d0[b] && d[b + 1] == d0[b + 1] && d[b + 2] == d0[b + 2] && d[b + 3] == d0[b + 3]);
                assert(d[950 + r] == d0[950 + r]);
                assert(cong(prepared_coeff(d0, 6074 + 1024 * r, n), az_masked(pk, sig, r, d0[950 + r] as int, n)));
            }
        }
    }
    proof {
        let d0 = old(proof_data)@;
        let d = proof_data@;
        assert(signature@ == buffered_signature(sig_data@));
        assert(proof_prepared(d) =~= prepared@);
        assert forall|k: int| 949 <= k < 954 || 6074 <= k < d.len() implies #[trigger] d[k] == d0[k] by {}
        assert(d[10] == d0[10] && d[949] == d0[949] && d[950] == d0[950] && d[951] == d0[951] && d[952] == d0[952] && d[953] == d0[953]);
        if proof_masks_ok(d0) {
            assert forall|r: int, c: u8| 0 <= r < 4 && c < 4 && #[trigger] mask_has(d[950 + r] as int, c) implies mask_has(d[949] as int, c) by {
                assert(mask_has(d0[950 + r] as int, c));
            }
        }
        assert forall|r: int, c: u8| 0 <= r < 4 && c < 4 && #[trigger] mask_has(d0[950 + r] as int, c) implies mask_has(d[950 + r] as int, c) by {
            assert(d[950 + r] == d0[950 + r]);
        }
    }
    Ok(())
}

/// Outcome of the `z` column step (`data` = column).
pub open spec fn prepare_z_outcome(program_id: Seq<u8>, accounts: Seq<AccountHeader>, quorum_data: Seq<u8>, key_data: Seq<u8>, sig_data: Seq<u8>,
    d: Seq<u8>, data: Seq<u8>) -> Result<(), ProgramFailure> {
    if data.len() != 1 || data[0] >= 4 {
        Err(qfail(PqQuorumAuthError::InvalidInstructionData))
    } else {
        match proof_step_check(program_id, accounts, quorum_data, key_data, sig_data, d) {
            Err(e) => Err(e),
            Ok(_) => if d[10] != 0 || d[948] != 1 || (d[949] as int / pow2_u8(data[0])) % 2 == 1 {
                Err(qfail(PqQuorumAuthError::InvalidMldsaProof))
            } else if !crate::mldsa44::protocol::z_column_valid(buffered_signature(sig_data), data[0] as int) {
                Err(qfail(PqQuorumAuthError::InvalidMldsaSignature))
            } else {
                Ok(())
            },
        }
    }
}

/// `2^k` for a bit index below 8.
pub open spec fn pow2_u8(k: u8) -> int {
    if k == 0 { 1 } else if k == 1 { 2 } else if k == 2 { 4 } else if k == 3 { 8 } else if k == 4 { 16 } else if k == 5 { 32 } else if k == 6 { 64 } else { 128 }
}

proof fn lemma_bit(m: u8, k: u8)
    requires
        k < 4,
    ensures
        (m & (1u8 << k) == 0) == ((m as int / pow2_u8(k)) % 2 == 0),
        (m | (1u8 << k)) == (if (m as int / pow2_u8(k)) % 2 == 1 { m as int } else { m + pow2_u8(k) }),
{
    if k == 0 {
        assert((m & (1u8 << 0u8) == 0) == ((m / 1) % 2 == 0)) by (bit_vector);
        assert((m | (1u8 << 0u8)) == (if (m / 1) % 2 == 1 { m as int } else { m + 1 })) by (bit_vector);
    } else if k == 1 {
        assert((m & (1u8 << 1u8) == 0) == ((m / 2) % 2 == 0)) by (bit_vector);
        assert((m | (1u8 << 1u8)) == (if (m / 2) % 2 == 1 { m as int } else { m + 2 })) by (bit_vector);
    } else if k == 2 {
        assert((m & (1u8 << 2u8) == 0) == ((m / 4) % 2 == 0)) by (bit_vector);
        assert((m | (1u8 << 2u8)) == (if (m / 4) % 2 == 1 { m as int } else { m + 4 })) by (bit_vector);
    } else {
        assert((m & (1u8 << 3u8) == 0) == ((m / 8) % 2 == 0)) by (bit_vector);
        assert((m | (1u8 << 3u8)) == (if (m / 8) % 2 == 1 { m as int } else { m + 8 })) by (bit_vector);
    }
}

/// The mask `m` with bit `k` set.
pub open spec fn with_bit(m: u8, k: u8) -> int {
    if (m as int / pow2_u8(k)) % 2 == 1 { m as int } else { m + pow2_u8(k) }
}

/// The `z` column step: stores column `col` of `z` and marks it prepared.
pub fn process_prepare_mldsa_z_column(program_id: &[u8; 32], accounts: &[AccountHeader], quorum_data: &[u8], key_data: &[u8], sig_data: &[u8],
    proof_data: &mut [u8], data: &[u8]) -> (res: Result<(), ProgramFailure>)
    requires
        proof_wf(old(proof_data)@),
    ensures
        proof_wf(final(proof_data)@),
        res == prepare_z_outcome(program_id@, accounts@, quorum_data@, key_data@, sig_data@, old(proof_data)@, data@),
        res is Err ==> final(proof_data)@ == old(proof_data)@,
        res is Ok ==> final(proof_data)@.len() == old(proof_data)@.len() && final(proof_data)@[949] == with_bit(old(proof_data)@[949], data@[0])
            && forall|k: int| 0 <= k < 949 ==> #[trigger] final(proof_data)@[k] == old(proof_data)@[k],
        proof_sound(old(proof_data)@, key_data@, sig_data@) ==> proof_sound(final(proof_data)@, key_data@, sig_data@),
        res is Ok ==> (forall|k: int| 950 <= k < final(proof_data)@.len() && !(1978 + 1024 * data@[0] <= k < 3002 + 1024 * data@[0])
                ==> #[trigger] final(proof_data)@[k] == old(proof_data)@[k])
            && prepared_ntt_mont_exact(proof_prepared(final(proof_data)@), 1024 + 1024 * data@[0], z_poly(buffered_signature(sig_data@), data@[0] as int)),
        proof_masks_ok(old(proof_data)@) ==> proof_masks_ok(final(proof_data)@),
        masks_grow(old(proof_data)@, final(proof_data)@),
{
    if data.len() != 1 || data[0] >= 4 {
        return Err(PqQuorumAuthError::InvalidInstructionData.into_failure());
    }
    let col = data[0];
    let _state = check_proof_step(program_id, accounts, quorum_data, key_data, sig_data, proof_data)?;
    let col_bit: u8 = 1u8 << col;
    proof {
        lemma_bit(proof_data@[949], col);
    }
    if proof_data[PROOF_ROW_MASK_OFFSET] != 0 || proof_data[PROOF_PREPARED_FLAG_OFFSET] != 1 || proof_data[PROOF_Z_MASK_OFFSET] & col_bit != 0 {
        return Err(PqQuorumAuthError::InvalidMldsaProof.into_failure());
    }
    let signature = &sig_data[86..2506];
    let mut prepared = copy_out(proof_data, PROOF_PREPARED_SIGNATURE_OFFSET, MLDSA44_PREPARED_SIGNATURE_LEN);
    if !prepare_mldsa44_z_column(signature, col as usize, prepared.as_mut_slice()) {
        return Err(PqQuorumAuthError::InvalidMldsaSignature.into_failure());
    }
    let ghost mid = proof_data@;
    write_bytes(proof_data, PROOF_PREPARED_SIGNATURE_OFFSET, prepared.as_slice());
    proof_data[PROOF_Z_MASK_OFFSET] = proof_data[PROOF_Z_MASK_OFFSET] | col_bit;
    proof {
        let d = proof_data@;
        assert forall|k: int| 954 <= k < 954 + 1024 implies #[trigger] d[k] == old(proof_data)@[k] by {
            assert(d[k] == prepared@[k - 954]);
        }
        if d[948] == 1 {
            lemma_within_transfer(d, old(proof_data)@, 954, -ntt_out_bound(), ntt_out_bound());
        }
        lemma_wf_prefix_change(old(proof_data)@, d);
        let d0 = old(proof_data)@;
        if proof_sound(d0, key_data@, sig_data@) {
            let pk = buffered_public_key(key_data@);
            let sig = buffered_signature(sig_data@);
            let p0 = proof_prepared(d0);
            let p = proof_prepared(d);
            assert(signature@ == sig);
            assert(p =~= prepared@);
            assert(d[948] == 1 && d0[948] == 1);
            lemma_with_bit_has(d0[949], col);
            assert forall|k: int| 0 <= k < 5120 && !(1024 + 1024 * col <= k < 2048 + 1024 * col) implies #[trigger] p[k] == p0[k] by {
                assert(p[k] == d[954 + k]);
                assert(p0[k] == d0[954 + k]);
            }
            assert forall|n: int| 0 <= n < 256 implies #[trigger] cong(prepared_coeff(p, 0, n), spec_ntt(challenge_poly(sig))[n]) by {
                assert(p[4 * n] == p0[4 * n] && p[4 * n + 1] == p0[4 * n + 1] && p[4 * n + 2] == p0[4 * n + 2] && p[4 * n + 3] == p0[4 * n + 3]);
                assert(prepared_coeff(p, 0, n) == prepared_coeff(p0, 0, n));
                assert(prepared_ntt(p0, 0, challenge_poly(sig)));
                assert(cong(prepared_coeff(p0, 0, n), spec_ntt(challenge_poly(sig))[n]));
            }
            assert forall|c: u8| c < 4 && #[trigger] mask_has(d[949] as int, c) implies z_column_valid(sig, c as int)
                && prepared_ntt_mont(p, 1024 + 1024 * c, z_poly(sig, c as int)) by {
                if c != col {
                    assert(mask_has(d0[949] as int, c));
                    assert forall|n: int| 0 <= n < 256 implies #[trigger] prepared_coeff(p, 1024 + 1024 * c, n) == prepared_coeff(p0, 1024 + 1024 * c, n) by {
                        let b = 1024 + 1024 * c + 4 * n;
                        assert(p[b] == p0[b] && p[b + 1] == p0[b + 1] && p[b + 2] == p0[b + 2] && p[b + 3] == p0[b + 3]);
                    }
                    assert(prepared_ntt_mont(p0, 1024 + 1024 * c, z_poly(sig, c as int)));
                }
            }
            assert forall|r: int, c: u8| 0 <= r < 4 && c < 4 && #[trigger] mask_has(d[950 + r] as int, c) implies mask_has(d[949] as int, c)
                && matrix_entry(pk.subrange(0, 32), r, c as int) is Some by {
                assert(d[950 + r] == d0[950 + r]);
                assert(mask_has(d0[950 + r] as int, c));
            }
            assert forall|r: int, n: int| 0 <= r < 4 && 0 <= n < 256 implies #[trigger] cong(prepared_coeff(d, 6074 + 1024 * r, n),
                az_masked(pk, sig, r, d[950 + r] as int, n)) by {
                let b = 6074 + 1024 * r + 4 * n;
                assert(d[b] == d0[b] && d[b + 1] == d0[b + 1] && d[b + 2] == d0[b + 2] && d[b + 3] == d0[b + 3]);
                assert(d[950 + r] == d0[950 + r]);
                assert(cong(prepared_coeff(d0, 6074 + 1024 * r, n), az_masked(pk, sig, r, d0[950 + r] as int, n)));
            }
            assert(d[10] == 0);
        }
    }
    proof {
        let d0 = old(proof_data)@;
        let d = proof_data@;
        assert(signature@ == buffered_signature(sig_data@));
        assert(proof_prepared(d) =~= prepared@);
        assert forall|k: int| 950 <= k < d.len() && !(1978 + 1024 * col <= k < 3002 + 1024 * col) implies #[trigger] d[k] == d0[k] by {
            if 954 <= k < 6074 {
                assert(d[k] == prepared@[k - 954]);
                assert(prepared@[k - 954] == proof_prepared(d0)[k - 954]);
            }
        }
        assert forall|i: int| (i == 10 || 949 <= i < 954) && i != 949 implies #[trigger] d[i] == d0[i] by {}
        lemma_step_masks(d0, d, 949, col, 1);
        if proof_masks_ok(d0) {
            lemma_with_bit_has(d0[949], col);
            assert forall|r: int, c: u8| 0 <= r < 4 && c < 4 && #[trigger] mask_has(d[950 + r] as int, c) implies mask_has(d[949] as int, c) by {
                assert(d[950 + r] == d0[950 + r]);
                assert(mask_has(d0[950 + r] as int, c));
            }
            assert(d[10] == 0);
        }
    }
    Ok(())
}

// ---------------------------------------------------------------------------------------
// What the steps keep.

/// Number of set bits among the low four bits of `m`.
pub open spec fn popcount4(m: int) -> int {
    m % 2 + (m / 2) % 2 + (m / 4) % 2 + (m / 8) % 2
}

/// A complete key buffer holds a prepared key whose `t1` rows are reduced.
pub open spec fn key_buffer_wf(kd: Seq<u8>) -> bool {
    kd.len() == MLDSA_PUBLIC_KEY_BUFFER_LEN && buffer_written(kd) == MLDSA44_PREPARED_PUBLIC_KEY_LEN
        ==> forall|r: int| 0 <= r < 4 ==> #[trigger] prepared_poly_within(kd, 86 + 1376 + 1024 * r, -q(), 2 * q() - 1)
}

/// A proof account's arithmetic state is in range: the challenge is bounded once prepared,
/// and each accumulated row is bounded by `Q` per column it has absorbed.
pub open spec fn proof_wf(d: Seq<u8>) -> bool {
    d.len() == MLDSA_PROOF_ACCOUNT_LEN ==> {
        &&& (d[948] == 1 ==> prepared_poly_within(d, 954, -ntt_out_bound(), ntt_out_bound()))
        &&& forall|r: int| 0 <= r < 4 ==> d[950 + r] < 16 ==> #[trigger] prepared_poly_within(d, 6074 + 1024 * r, -popcount4(d[950 + r] as int) * q(), popcount4(d[950 + r] as int) * q())
    }
}

/// A fresh proof account is in range.
pub proof fn law_fresh_proof_wf(bump: u8, mode: u8, authority: Seq<u8>, quorum: Seq<u8>, nonce: u64, key: Seq<u8>, sig: Seq<u8>, payload_hash: Seq<u8>)
    requires
        authority.len() == 32,
        quorum.len() == 32,
        key.len() == 32,
        sig.len() == 32,
        payload_hash.len() == 32,
    ensures
        proof_wf(proof_account_init(bump, mode, authority, quorum, nonce, key, sig, payload_hash)),
{
    vstd::bytes::lemma_auto_spec_u64_to_from_le_bytes();
    let d = proof_account_init(bump, mode, authority, quorum, nonce, key, sig, payload_hash);
    assert(d.len() == 10170);
    assert forall|k: int| 180 <= k < 10170 implies #[trigger] d[k] == 0 by {}
    assert forall|r: int| 0 <= r < 4 implies #[trigger] prepared_poly_within(d, 6074 + 1024 * r, -popcount4(d[950 + r] as int) * q(), popcount4(d[950 + r] as int) * q()) by {
        assert(d[950 + r] == 0);
        assert forall|n: int| 0 <= n < 256 implies #[trigger] prepared_coeff(d, 6074 + 1024 * r, n) == 0 by {
            let b = 6074 + 1024 * r + 4 * n;
            assert(d[b] == 0 && d[b + 1] == 0 && d[b + 2] == 0 && d[b + 3] == 0);
        }
    }
}

/// Bit `k` of mask `m`.
pub open spec fn mask_has(m: int, k: u8) -> bool {
    (m / pow2_u8(k)) % 2 == 1
}

/// The terms `A[row][c] NTT(z[c])` at coefficient `n`, summed over the columns `c` in `mask`.
pub open spec fn az_masked(pk: Seq<u8>, sig: Seq<u8>, row: int, mask: int, n: int) -> int {
    (if mask_has(mask, 0) { az_term(pk, sig, row, 0, n) } else { 0 })
        + (if mask_has(mask, 1) { az_term(pk, sig, row, 1, n) } else { 0 })
        + (if mask_has(mask, 2) { az_term(pk, sig, row, 2, n) } else { 0 })
        + (if mask_has(mask, 3) { az_term(pk, sig, row, 3, n) } else { 0 })
}

/// The public key whose prepared form a key buffer holds.
pub open spec fn buffered_public_key(kd: Seq<u8>) -> Seq<u8> {
    buffered_prepared_key(kd).subrange(0, 1312)
}

/// A complete key buffer holds the prepared form of the public key it starts with.
pub open spec fn key_buffer_sound(kd: Seq<u8>) -> bool {
    kd.len() == MLDSA_PUBLIC_KEY_BUFFER_LEN && buffer_written(kd) == MLDSA44_PREPARED_PUBLIC_KEY_LEN
        ==> prepared_key_layout(buffered_prepared_key(kd), buffered_public_key(kd))
}

/// What the steps recorded in a proof account have established about the buffered key and
/// signature: the stored challenge is `NTT(c)`, each stored `z` column is `NTT(z) 2^32`, each
/// accumulated row is the sum of `A[row][c] NTT(z[c])` over its recorded columns (modulo Q),
/// and each finished row of `w1` is that row of `w1Encode(UseHint(h, w'_approx))`.
pub open spec fn proof_sound(d: Seq<u8>, kd: Seq<u8>, sd: Seq<u8>) -> bool {
    let pk = buffered_public_key(kd);
    let sig = buffered_signature(sd);
    let p = proof_prepared(d);
    d.len() == MLDSA_PROOF_ACCOUNT_LEN ==> {
        &&& d[948] != 1 ==> d[10] == 0 && d[949] == 0 && d[950] == 0 && d[951] == 0 && d[952] == 0 && d[953] == 0
        &&& d[948] == 1 ==> spec_hints_valid(sig_hints(sig)) && challenge_of(sig) is Some && prepared_ntt(p, 0, challenge_poly(sig))
        &&& forall|c: u8| c < 4 && #[trigger] mask_has(d[949] as int, c) ==> z_column_valid(sig, c as int)
            && prepared_ntt_mont(p, 1024 + 1024 * c, z_poly(sig, c as int))
        &&& forall|r: int, c: u8| 0 <= r < 4 && c < 4 && #[trigger] mask_has(d[950 + r] as int, c) ==> mask_has(d[949] as int, c)
            && matrix_entry(pk.subrange(0, 32), r, c as int) is Some
        &&& forall|r: int, n: int| 0 <= r < 4 && 0 <= n < 256 ==> #[trigger] cong(prepared_coeff(d, 6074 + 1024 * r, n), az_masked(pk, sig, r, d[950 + r] as int, n))
        &&& forall|r: u8| r < 4 && #[trigger] mask_has(d[10] as int, r) ==> d[950 + r] == 15
            && w1_row_from(d.subrange(180 + 192 * r, 372 + 192 * r), sig_hints(sig), r as int, w_approx(pk, sig, r as int))
    }
}

/// The progress marks of a proof account agree with one another: the masks are four-bit, the
/// prepared flag is 0 or 1, `z` columns are recorded only once the challenge is prepared, a
/// row accumulates only recorded `z` columns, and a finished row has every column.
pub open spec fn proof_masks_ok(d: Seq<u8>) -> bool {
    d.len() == MLDSA_PROOF_ACCOUNT_LEN ==> {
        &&& d[948] <= 1
        &&& d[10] < 16 && d[949] < 16 && d[950] < 16 && d[951] < 16 && d[952] < 16 && d[953] < 16
        &&& d[949] != 0 ==> d[948] == 1
        &&& forall|r: int, c: u8| 0 <= r < 4 && c < 4 && #[trigger] mask_has(d[950 + r] as int, c) ==> mask_has(d[949] as int, c)
        &&& forall|r: u8| r < 4 && #[trigger] mask_has(d[10] as int, r) ==> d[948] == 1 && d[949] == 15 && d[950 + r] == 15
    }
}

/// From `old` to `new` the masks only gain bits, a set prepared flag stays set, and the `z`
/// mask changes only while no row is finished.
pub open spec fn masks_grow(old: Seq<u8>, new: Seq<u8>) -> bool {
    old.len() == MLDSA_PROOF_ACCOUNT_LEN && new.len() == MLDSA_PROOF_ACCOUNT_LEN ==> {
        &&& old[948] == 1 ==> new[948] == 1
        &&& forall|c: u8| c < 4 && #[trigger] mask_has(old[10] as int, c) ==> mask_has(new[10] as int, c)
        &&& forall|c: u8| c < 4 && #[trigger] mask_has(old[949] as int, c) ==> mask_has(new[949] as int, c)
        &&& forall|r: int, c: u8| 0 <= r < 4 && c < 4 && #[trigger] mask_has(old[950 + r] as int, c) ==> mask_has(new[950 + r] as int, c)
        &&& new[949] != old[949] ==> old[10] == 0
    }
}

/// A fresh proof account's marks agree.
pub proof fn law_fresh_proof_masks(bump: u8, mode: u8, authority: Seq<u8>, quorum: Seq<u8>, nonce: u64, key: Seq<u8>, sig: Seq<u8>,
    payload_hash: Seq<u8>)
    requires
        authority.len() == 32,
        quorum.len() == 32,
        key.len() == 32,
        sig.len() == 32,
        payload_hash.len() == 32,
    ensures
        proof_masks_ok(proof_account_init(bump, mode, authority, quorum, nonce, key, sig, payload_hash)),
{
    vstd::bytes::lemma_auto_spec_u64_to_from_le_bytes();
    let d = proof_account_init(bump, mode, authority, quorum, nonce, key, sig, payload_hash);
    assert(d.len() == 10170);
    assert(d[10] == 0);
    assert forall|k: int| 180 <= k < 10170 implies #[trigger] d[k] == 0 by {}
    assert(d[948] == 0 && d[949] == 0 && d[950] == 0 && d[951] == 0 && d[952] == 0 && d[953] == 0);
}

/// A four-bit mask with none of its bits set is zero.
proof fn lemma_no_bits_zero(m: u8)
    requires
        m < 16,
        forall|c: u8| c < 4 ==> !#[trigger] mask_has(m as int, c),
    ensures
        m == 0,
{
    assert(!mask_has(m as int, 0) && !mask_has(m as int, 1) && !mask_has(m as int, 2) && !mask_has(m as int, 3));
    let mm = m as int;
    if mm == 0 {} else if mm == 1 {} else if mm == 2 {} else if mm == 3 {} else if mm == 4 {} else if mm == 5 {}
    else if mm == 6 {} else if mm == 7 {} else if mm == 8 {} else if mm == 9 {} else if mm == 10 {} else if mm == 11 {}
    else if mm == 12 {} else if mm == 13 {} else if mm == 14 {} else {}
}

/// Growth of the marks composes.
proof fn lemma_masks_grow_trans(a: Seq<u8>, b: Seq<u8>, c: Seq<u8>)
    requires
        a.len() == b.len(),
        b.len() == c.len(),
        proof_masks_ok(a),
        masks_grow(a, b),
        masks_grow(b, c),
    ensures
        masks_grow(a, c),
{
    if a.len() == MLDSA_PROOF_ACCOUNT_LEN {
        if c[949] != a[949] && b[949] == a[949] {
            assert(b[10] == 0);
            assert forall|k: u8| k < 4 implies !#[trigger] mask_has(a[10] as int, k) by {
                if mask_has(a[10] as int, k) {
                    assert(mask_has(b[10] as int, k));
                }
            }
            lemma_no_bits_zero(a[10]);
        }
    }
}

/// Over any run of proof steps from an account whose marks agree (a fresh one does, by
/// `law_fresh_proof_masks`), with each step's guarantees on the marks, the marks agree after
/// every step and only ever gain bits: each state has every bit of each earlier state, and
/// the `z` mask changed only while no row was finished.
pub proof fn law_masks_through_steps(states: Seq<Seq<u8>>)
    requires
        states.len() >= 1,
        proof_masks_ok(states[0]),
        forall|i: int| 0 <= i < states.len() ==> #[trigger] states[i].len() == states[0].len(),
        forall|i: int| 0 <= i < states.len() - 1 ==> #[trigger] masks_grow(states[i], states[i + 1]),
        forall|i: int| 0 <= i < states.len() - 1 ==> (proof_masks_ok(states[i]) ==> #[trigger] proof_masks_ok(states[i + 1])),
    ensures
        forall|i: int| 0 <= i < states.len() ==> #[trigger] proof_masks_ok(states[i]),
        forall|j: int| 0 <= j < states.len() ==> #[trigger] masks_grow(states[0], states[j]),
    decreases states.len(),
{
    if states.len() > 1 {
        let prefix = states.drop_last();
        assert forall|i: int| 0 <= i < prefix.len() - 1 implies #[trigger] masks_grow(prefix[i], prefix[i + 1]) by {
            assert(masks_grow(states[i], states[i + 1]));
        }
        assert forall|i: int| 0 <= i < prefix.len() - 1 && proof_masks_ok(prefix[i]) implies #[trigger] proof_masks_ok(prefix[i + 1]) by {
            assert(proof_masks_ok(states[i]));
            assert(proof_masks_ok(states[i + 1]));
        }
        assert forall|i: int| 0 <= i < prefix.len() implies #[trigger] prefix[i].len() == prefix[0].len() by {
            assert(states[i].len() == states[0].len());
        }
        law_masks_through_steps(prefix);
        let last = states.len() - 1;
        assert(proof_masks_ok(states[last - 1])) by {
            assert(proof_masks_ok(prefix[last - 1]));
        }
        let k = last - 1;
        assert(proof_masks_ok(states[k + 1]));
        assert(masks_grow(states[k], states[k + 1]));
        assert(states[k + 1] == states[last]);
        assert(proof_masks_ok(states[last]));
        assert(masks_grow(states[0], states[last - 1])) by {
            assert(masks_grow(prefix[0], prefix[last - 1]));
        }
        assert(masks_grow(states[last - 1], states[last]));
        assert(states[last - 1].len() == states[0].len() && states[last].len() == states[0].len());
        lemma_masks_grow_trans(states[0], states[last - 1], states[last]);
        assert forall|i: int| 0 <= i < states.len() implies #[trigger] proof_masks_ok(states[i]) by {
            if i < last {
                assert(proof_masks_ok(prefix[i]));
            }
        }
        assert forall|j: int| 0 <= j < states.len() implies #[trigger] masks_grow(states[0], states[j]) by {
            if j < last {
                assert(masks_grow(prefix[0], prefix[j]));
            }
        }
    } else {
        assert(masks_grow(states[0], states[0]));
    }
}

/// One step's effect on the marks: the byte `which` (the row mask, the `z` mask or a column
/// mask) gains bit `k` and the prepared flag becomes `flag`; the other marks stay.
proof fn lemma_step_masks(d0: Seq<u8>, d: Seq<u8>, which: int, k: u8, flag: u8)
    requires
        d0.len() == MLDSA_PROOF_ACCOUNT_LEN,
        d.len() == MLDSA_PROOF_ACCOUNT_LEN,
        which == 10 || 949 <= which < 954,
        k < 4,
        d0[which] < 16,
        !mask_has(d0[which] as int, k),
        d[which] == with_bit(d0[which], k),
        d[948] == flag,
        d0[948] == 1 ==> flag == 1,
        forall|i: int| (i == 10 || 949 <= i < 954) && i != which ==> #[trigger] d[i] == d0[i],
        which == 949 ==> d0[10] == 0,
    ensures
        masks_grow(d0, d),
{
    lemma_with_bit_has(d0[which], k);
    assert forall|c: u8| c < 4 && #[trigger] mask_has(d0[10] as int, c) implies mask_has(d[10] as int, c) by {
        if which != 10 { assert(d[10] == d0[10]); }
    }
    assert forall|c: u8| c < 4 && #[trigger] mask_has(d0[949] as int, c) implies mask_has(d[949] as int, c) by {
        if which != 949 { assert(d[949] == d0[949]); }
    }
    assert forall|r: int, c: u8| 0 <= r < 4 && c < 4 && #[trigger] mask_has(d0[950 + r] as int, c) implies mask_has(d[950 + r] as int, c) by {
        if which != 950 + r { assert(d[950 + r] == d0[950 + r]); }
    }
    if which != 949 { assert(d[949] == d0[949]); }
}

/// Setting bit `k` of a four-bit mask leaves the other bits as they were.
proof fn lemma_with_bit_has(m: u8, k: u8)
    requires
        m < 16,
        k < 4,
        !mask_has(m as int, k),
    ensures
        with_bit(m, k) < 16,
        forall|c: u8| c < 4 ==> #[trigger] mask_has(with_bit(m, k), c) == (c == k || mask_has(m as int, c)),
{
    let mm = m as int;
    lemma_popcount_with_bit(m, k);
    assert forall|c: u8| c < 4 implies #[trigger] mask_has(with_bit(m, k), c) == (c == k || mask_has(m as int, c)) by {
        if c == 0 {
            if mm == 0 {} else if mm == 1 {} else if mm == 2 {} else if mm == 3 {} else if mm == 4 {} else if mm == 5 {}
            else if mm == 6 {} else if mm == 7 {} else if mm == 8 {} else if mm == 9 {} else if mm == 10 {} else if mm == 11 {}
            else if mm == 12 {} else if mm == 13 {} else if mm == 14 {} else {}
        } else if c == 1 {
            if mm == 0 {} else if mm == 1 {} else if mm == 2 {} else if mm == 3 {} else if mm == 4 {} else if mm == 5 {}
            else if mm == 6 {} else if mm == 7 {} else if mm == 8 {} else if mm == 9 {} else if mm == 10 {} else if mm == 11 {}
            else if mm == 12 {} else if mm == 13 {} else if mm == 14 {} else {}
        } else if c == 2 {
            if mm == 0 {} else if mm == 1 {} else if mm == 2 {} else if mm == 3 {} else if mm == 4 {} else if mm == 5 {}
            else if mm == 6 {} else if mm == 7 {} else if mm == 8 {} else if mm == 9 {} else if mm == 10 {} else if mm == 11 {}
            else if mm == 12 {} else if mm == 13 {} else if mm == 14 {} else {}
        } else {
            if mm == 0 {} else if mm == 1 {} else if mm == 2 {} else if mm == 3 {} else if mm == 4 {} else if mm == 5 {}
            else if mm == 6 {} else if mm == 7 {} else if mm == 8 {} else if mm == 9 {} else if mm == 10 {} else if mm == 11 {}
            else if mm == 12 {} else if mm == 13 {} else if mm == 14 {} else {}
        }
    }
}

/// The full mask sums all four columns.
proof fn lemma_az_masked_full(pk: Seq<u8>, sig: Seq<u8>, row: int, n: int)
    ensures
        az_masked(pk, sig, row, 15, n) == az_partial(pk, sig, row, 4, n),
{
    reveal_with_fuel(az_partial, 5);
}

/// A fresh proof account has recorded nothing, which is sound for any buffers.
pub proof fn law_fresh_proof_sound(bump: u8, mode: u8, authority: Seq<u8>, quorum: Seq<u8>, nonce: u64, key: Seq<u8>, sig: Seq<u8>,
    payload_hash: Seq<u8>, kd: Seq<u8>, sd: Seq<u8>)
    requires
        authority.len() == 32,
        quorum.len() == 32,
        key.len() == 32,
        sig.len() == 32,
        payload_hash.len() == 32,
    ensures
        proof_sound(proof_account_init(bump, mode, authority, quorum, nonce, key, sig, payload_hash), kd, sd),
{
    vstd::bytes::lemma_auto_spec_u64_to_from_le_bytes();
    let d = proof_account_init(bump, mode, authority, quorum, nonce, key, sig, payload_hash);
    assert(d.len() == 10170);
    assert forall|k: int| 180 <= k < 10170 implies #[trigger] d[k] == 0 by {}
    assert forall|r: int, n: int| 0 <= r < 4 && 0 <= n < 256 implies #[trigger] cong(prepared_coeff(d, 6074 + 1024 * r, n),
        az_masked(buffered_public_key(kd), buffered_signature(sd), r, d[950 + r] as int, n)) by {
        let b = 6074 + 1024 * r + 4 * n;
        assert(d[b] == 0 && d[b + 1] == 0 && d[b + 2] == 0 && d[b + 3] == 0);
        assert(d[950 + r] == 0);
    }
}

/// Outcome of accumulating matrix column `col` into row `row` (`data` = row, column). A matrix
/// entry that `REJ_STREAM_LEN` stream bytes do not finish is refused as an invalid signature.
pub open spec fn prove_column_outcome(program_id: Seq<u8>, accounts: Seq<AccountHeader>, quorum_data: Seq<u8>, key_data: Seq<u8>, sig_data: Seq<u8>,
    d: Seq<u8>, data: Seq<u8>) -> Result<(), ProgramFailure> {
    if data.len() != 2 || data[0] >= 4 || data[1] >= 4 {
        Err(qfail(PqQuorumAuthError::InvalidInstructionData))
    } else {
        let row = data[0];
        let col = data[1];
        match proof_step_check(program_id, accounts, quorum_data, key_data, sig_data, d) {
            Err(e) => Err(e),
            Ok(_) => if (d[10] as int / pow2_u8(row)) % 2 == 1 || d[948] != 1 {
                Err(qfail(PqQuorumAuthError::InvalidMldsaProof))
            } else if (d[949] as int / pow2_u8(col)) % 2 == 0 || (d[950 + row] as int / pow2_u8(col)) % 2 == 1 {
                Err(qfail(PqQuorumAuthError::InvalidMldsaProof))
            } else if crate::mldsa44::protocol::matrix_entry(buffered_prepared_key(key_data).subrange(0, 32), row as int, col as int) is None {
                Err(qfail(PqQuorumAuthError::InvalidMldsaSignature))
            } else {
                Ok(())
            },
        }
    }
}

proof fn lemma_popcount_with_bit(m: u8, k: u8)
    requires
        m < 16,
        k < 4,
        (m as int / pow2_u8(k)) % 2 == 0,
    ensures
        with_bit(m, k) < 16,
        popcount4(with_bit(m, k)) == popcount4(m as int) + 1,
{
    let mm = m as int;
    if k == 0 {
        if mm == 0 {} else if mm == 1 {} else if mm == 2 {} else if mm == 3 {} else if mm == 4 {} else if mm == 5 {} else if mm == 6 {} else if mm == 7 {} else if mm == 8 {} else if mm == 9 {} else if mm == 10 {} else if mm == 11 {} else if mm == 12 {} else if mm == 13 {} else if mm == 14 {} else {}
    } else if k == 1 {
        if mm == 0 {} else if mm == 1 {} else if mm == 2 {} else if mm == 3 {} else if mm == 4 {} else if mm == 5 {} else if mm == 6 {} else if mm == 7 {} else if mm == 8 {} else if mm == 9 {} else if mm == 10 {} else if mm == 11 {} else if mm == 12 {} else if mm == 13 {} else if mm == 14 {} else {}
    } else if k == 2 {
        if mm == 0 {} else if mm == 1 {} else if mm == 2 {} else if mm == 3 {} else if mm == 4 {} else if mm == 5 {} else if mm == 6 {} else if mm == 7 {} else if mm == 8 {} else if mm == 9 {} else if mm == 10 {} else if mm == 11 {} else if mm == 12 {} else if mm == 13 {} else if mm == 14 {} else {}
    } else {
        if mm == 0 {} else if mm == 1 {} else if mm == 2 {} else if mm == 3 {} else if mm == 4 {} else if mm == 5 {} else if mm == 6 {} else if mm == 7 {} else if mm == 8 {} else if mm == 9 {} else if mm == 10 {} else if mm == 11 {} else if mm == 12 {} else if mm == 13 {} else if mm == 14 {} else {}
    }
}

/// Polynomials stored on the same bytes have the same coefficients.
pub(crate) proof fn lemma_coeffs_shift(a: Seq<u8>, aoff: int, b: Seq<u8>, boff: int)
    requires
        0 <= aoff,
        0 <= boff,
        aoff + 1024 <= a.len(),
        boff + 1024 <= b.len(),
        forall|k: int| 0 <= k < 1024 ==> #[trigger] a[aoff + k] == b[boff + k],
    ensures
        forall|n: int| 0 <= n < 256 ==> #[trigger] prepared_coeff(a, aoff, n) == prepared_coeff(b, boff, n),
{
    assert forall|n: int| 0 <= n < 256 implies #[trigger] prepared_coeff(a, aoff, n) == prepared_coeff(b, boff, n) by {
        let x = 4 * n;
        assert(a[aoff + x] == b[boff + x]);
        assert(a[aoff + (x + 1)] == b[boff + (x + 1)]);
        assert(a[aoff + (x + 2)] == b[boff + (x + 2)]);
        assert(a[aoff + (x + 3)] == b[boff + (x + 3)]);
    }
}

/// A bound on a stored polynomial carries over to a buffer with the same bytes there.
proof fn lemma_within_transfer(a: Seq<u8>, b: Seq<u8>, off: int, lo: int, hi: int)
    requires
        0 <= off,
        off + 1024 <= a.len(),
        a.len() == b.len(),
        forall|k: int| off <= k < off + 1024 ==> #[trigger] a[k] == b[k],
        prepared_poly_within(b, off, lo, hi),
    ensures
        prepared_poly_within(a, off, lo, hi),
{
    assert forall|k: int| 0 <= k < 1024 implies #[trigger] a[off + k] == b[off + k] by {
        assert(a[off + k] == b[off + k]);
    }
    lemma_coeffs_shift(a, off, b, off);
    assert forall|n: int| 0 <= n < 256 implies lo <= #[trigger] prepared_coeff(a, off, n) <= hi by {
        assert(prepared_coeff(a, off, n) == prepared_coeff(b, off, n));
    }
}

/// Accumulating one more column into a row keeps a proof account in range.
proof fn lemma_wf_after_column(old: Seq<u8>, d: Seq<u8>, row: int, col: u8)
    requires
        proof_wf(old),
        old.len() == MLDSA_PROOF_ACCOUNT_LEN,
        d.len() == MLDSA_PROOF_ACCOUNT_LEN,
        0 <= row < 4,
        col < 4,
        old[950 + row] < 16,
        (old[950 + row] as int / pow2_u8(col)) % 2 == 0,
        d[950 + row] == with_bit(old[950 + row], col),
        forall|k: int| 0 <= k < MLDSA_PROOF_ACCOUNT_LEN && k != 950 + row && !(6074 + 1024 * row <= k < 7098 + 1024 * row) ==> #[trigger] d[k] == old[k],
        forall|n: int| 0 <= n < 256 ==> -q() < #[trigger] prepared_coeff(d, 6074 + 1024 * row, n) - prepared_coeff(old, 6074 + 1024 * row, n) < q(),
    ensures
        proof_wf(d),
{
    lemma_popcount_with_bit(old[950 + row], col);
    assert forall|r: int| 0 <= r < 4 && d[950 + r] < 16 implies #[trigger] prepared_poly_within(d, 6074 + 1024 * r, -popcount4(d[950 + r] as int) * q(), popcount4(d[950 + r] as int) * q()) by {
        if r == row {
            assert(prepared_poly_within(old, 6074 + 1024 * r, -popcount4(old[950 + r] as int) * q(), popcount4(old[950 + r] as int) * q()));
            assert forall|n: int| 0 <= n < 256 implies -popcount4(d[950 + r] as int) * q() <= #[trigger] prepared_coeff(d, 6074 + 1024 * r, n) <= popcount4(d[950 + r] as int) * q() by {
                assert(-popcount4(old[950 + r] as int) * q() <= prepared_coeff(old, 6074 + 1024 * r, n) <= popcount4(old[950 + r] as int) * q());
            }
        } else {
            assert(d[950 + r] == old[950 + r]);
            if d[950 + r] < 16 {
                lemma_within_transfer(d, old, 6074 + 1024 * r, -popcount4(d[950 + r] as int) * q(), popcount4(d[950 + r] as int) * q());
            }
        }
    }
    if d[948] == 1 {
        lemma_within_transfer(d, old, 954, -ntt_out_bound(), ntt_out_bound());
    }
}

/// A step that changes only the header area and the prepared signature keeps a proof
/// account in range, as long as a prepared challenge stays bounded.
proof fn lemma_wf_prefix_change(old: Seq<u8>, d: Seq<u8>)
    requires
        proof_wf(old),
        old.len() == MLDSA_PROOF_ACCOUNT_LEN,
        d.len() == MLDSA_PROOF_ACCOUNT_LEN,
        forall|k: int| 950 <= k < 954 ==> #[trigger] d[k] == old[k],
        forall|k: int| 6074 <= k < MLDSA_PROOF_ACCOUNT_LEN ==> #[trigger] d[k] == old[k],
        d[948] == 1 ==> prepared_poly_within(d, 954, -ntt_out_bound(), ntt_out_bound()),
    ensures
        proof_wf(d),
{
    assert forall|r: int| 0 <= r < 4 && d[950 + r] < 16 implies #[trigger] prepared_poly_within(d, 6074 + 1024 * r, -popcount4(d[950 + r] as int) * q(), popcount4(d[950 + r] as int) * q()) by {
        assert(d[950 + r] == old[950 + r]);
        if d[950 + r] < 16 {
            lemma_within_transfer(d, old, 6074 + 1024 * r, -popcount4(d[950 + r] as int) * q(), popcount4(d[950 + r] as int) * q());
        }
    }
}

/// The prove-column step: accumulates `A[row][col] z[col]` into row `row` and marks the
/// column done for that row.
pub fn process_prove_mldsa_column(program_id: &[u8; 32], accounts: &[AccountHeader], quorum_data: &[u8], key_data: &[u8], sig_data: &[u8],
    proof_data: &mut [u8], data: &[u8]) -> (res: Result<(), ProgramFailure>)
    requires
        proof_wf(old(proof_data)@),
    ensures
        res == prove_column_outcome(program_id@, accounts@, quorum_data@, key_data@, sig_data@, old(proof_data)@, data@),
        res is Err ==> final(proof_data)@ == old(proof_data)@,
        proof_wf(final(proof_data)@),
        res is Ok ==> final(proof_data)@.len() == old(proof_data)@.len()
            && final(proof_data)@[950 + data@[0]] == with_bit(old(proof_data)@[950 + data@[0]], data@[1])
            && (forall|k: int| 0 <= k < 950 ==> #[trigger] final(proof_data)@[k] == old(proof_data)@[k])
            && (forall|n: int| 0 <= n < 256 ==> #[trigger] crate::mldsa44::protocol::mont_step(
                prepared_coeff(old(proof_data)@, 6074 + 1024 * data@[0], n),
                prepared_coeff(final(proof_data)@, 6074 + 1024 * data@[0], n),
                crate::mldsa44::protocol::matrix_entry(buffered_prepared_key(key_data@).subrange(0, 32), data@[0] as int, data@[1] as int)->0[n]
                    * prepared_coeff(proof_prepared(old(proof_data)@), 1024 + 1024 * data@[1], n))),
        proof_sound(old(proof_data)@, key_data@, sig_data@) ==> proof_sound(final(proof_data)@, key_data@, sig_data@),
        res is Ok ==> forall|k: int| 950 <= k < final(proof_data)@.len() && k != 950 + data@[0]
            && !(6074 + 1024 * data@[0] <= k < 7098 + 1024 * data@[0]) ==> #[trigger] final(proof_data)@[k] == old(proof_data)@[k],
        proof_masks_ok(old(proof_data)@) ==> proof_masks_ok(final(proof_data)@),
        masks_grow(old(proof_data)@, final(proof_data)@),
{
    if data.len() != 2 || data[0] >= 4 || data[1] >= 4 {
        return Err(PqQuorumAuthError::InvalidInstructionData.into_failure());
    }
    let row = data[0];
    let col = data[1];
    let state = check_proof_step(program_id, accounts, quorum_data, key_data, sig_data, proof_data)?;
    proof {
        lemma_bit(state.row_mask, row);
        lemma_bit(proof_data@[949], col);
        lemma_bit(proof_data@[950 + row], col);
    }
    let row_bit: u8 = 1u8 << row;
    if state.row_mask & row_bit != 0 {
        return Err(PqQuorumAuthError::InvalidMldsaProof.into_failure());
    }
    if proof_data[PROOF_PREPARED_FLAG_OFFSET] != 1 {
        return Err(PqQuorumAuthError::InvalidMldsaProof.into_failure());
    }
    let col_bit: u8 = 1u8 << col;
    let mask_offset = PROOF_COLUMN_MASK_OFFSET + row as usize;
    if proof_data[PROOF_Z_MASK_OFFSET] & col_bit == 0 || proof_data[mask_offset] & col_bit != 0 {
        return Err(PqQuorumAuthError::InvalidMldsaProof.into_failure());
    }
    let az_start = PROOF_AZ_OFFSET + (row as usize) * 1024;
    let mut az = copy_out(proof_data, az_start, 1024);
    let ghost old_mask = proof_data@[950 + row];
    proof {
        assert forall|k: int| 0 <= k < 1024 implies #[trigger] az@[0 + k] == proof_data@[az_start + k] by {}
        lemma_coeffs_shift(az@, 0, proof_data@, az_start as int);
        assert(prepared_poly_within(proof_data@, 6074 + 1024 * row, -popcount4(old_mask as int) * q(), popcount4(old_mask as int) * q()));
        assert(popcount4(old_mask as int) <= 3);
        assert forall|n: int| 0 <= n < 256 implies i32::MIN + q() <= #[trigger] prepared_coeff(az@, 0, n) <= i32::MAX - q() by {
            assert(prepared_coeff(az@, 0, n) == prepared_coeff(proof_data@, az_start as int, n));
            assert(-popcount4(old_mask as int) * q() <= prepared_coeff(proof_data@, az_start as int, n) <= popcount4(old_mask as int) * q());
        }
    }
    let ghost az_before = az@;
    let kslice = &key_data[86..5558];
    let pslice = &proof_data[954..6074];
    proof {
        assert(kslice@ == buffered_prepared_key(key_data@));
        assert(pslice@ == proof_prepared(old(proof_data)@));
    }
    if !accumulate_mldsa44_column(kslice, pslice, row as usize, col as usize, az.as_mut_slice()) {
        return Err(PqQuorumAuthError::InvalidMldsaSignature.into_failure());
    }
    let ghost ent = crate::mldsa44::protocol::matrix_entry(buffered_prepared_key(key_data@).subrange(0, 32), row as int, col as int)->0;
    proof {
        assert forall|n: int| 0 <= n < 256 implies #[trigger] crate::mldsa44::protocol::mont_step(prepared_coeff(az_before, 0, n), prepared_coeff(az@, 0, n),
            ent[n] * prepared_coeff(proof_prepared(old(proof_data)@), 1024 + 1024 * col, n)) by {
            assert(crate::mldsa44::protocol::mont_step(prepared_coeff(az_before, 0, n), prepared_coeff(az@, 0, n),
                crate::mldsa44::protocol::matrix_entry(kslice@.subrange(0, 32), row as int, col as int)->0[n] * prepared_coeff(pslice@, 1024 + 1024 * col, n)));
        }
    }
    write_bytes(proof_data, az_start, az.as_slice());
    proof_data[mask_offset] = proof_data[mask_offset] | col_bit;
    proof {
        let d = proof_data@;
        assert forall|k: int| 0 <= k < 1024 implies #[trigger] d[az_start + k] == az@[0 + k] by {}
        lemma_coeffs_shift(d, az_start as int, az@, 0);
        assert forall|n: int| 0 <= n < 256 implies #[trigger] crate::mldsa44::protocol::mont_step(
            prepared_coeff(old(proof_data)@, 6074 + 1024 * row, n), prepared_coeff(d, 6074 + 1024 * row, n),
            ent[n] * prepared_coeff(proof_prepared(old(proof_data)@), 1024 + 1024 * col, n)) by {
            assert(prepared_coeff(d, az_start as int, n) == prepared_coeff(az@, 0, n));
            assert(prepared_coeff(az_before, 0, n) == prepared_coeff(old(proof_data)@, az_start as int, n));
            assert(crate::mldsa44::protocol::mont_step(prepared_coeff(az_before, 0, n), prepared_coeff(az@, 0, n),
                ent[n] * prepared_coeff(proof_prepared(old(proof_data)@), 1024 + 1024 * col, n)));
        }
        assert forall|n: int| 0 <= n < 256 implies -q() < #[trigger] prepared_coeff(d, 6074 + 1024 * row, n) - prepared_coeff(old(proof_data)@, 6074 + 1024 * row, n) < q() by {
            assert(crate::mldsa44::protocol::mont_step(
                prepared_coeff(old(proof_data)@, 6074 + 1024 * row, n), prepared_coeff(d, 6074 + 1024 * row, n),
                ent[n] * prepared_coeff(proof_prepared(old(proof_data)@), 1024 + 1024 * col, n)));
        }
        lemma_wf_after_column(old(proof_data)@, d, row as int, col);
        let d0 = old(proof_data)@;
        if proof_sound(d0, key_data@, sig_data@) {
            lemma_column_step_sound(d0, d, key_data@, sig_data@, row, col);
        }
    }
    proof {
        let d0 = old(proof_data)@;
        let d = proof_data@;
        assert forall|k: int| 950 <= k < d.len() && k != 950 + row && !(6074 + 1024 * row <= k < 7098 + 1024 * row)
            implies #[trigger] d[k] == d0[k] by {}
        assert forall|i: int| (i == 10 || 949 <= i < 954) && i != 950 + row implies #[trigger] d[i] == d0[i] by {}
        lemma_step_masks(d0, d, 950 + row as int, col, d0[948]);
        if proof_masks_ok(d0) {
            lemma_with_bit_has(d0[950 + row], col);
            assert forall|r: int, c: u8| 0 <= r < 4 && c < 4 && #[trigger] mask_has(d[950 + r] as int, c) implies mask_has(d[949] as int, c) by {
                if r != row as int {
                    assert(d[950 + r] == d0[950 + r]);
                    assert(mask_has(d0[950 + r] as int, c));
                } else if c != col {
                    assert(mask_has(d0[950 + r] as int, c));
                }
            }
            assert forall|r: u8| r < 4 && #[trigger] mask_has(d[10] as int, r) implies d[948] == 1 && d[949] == 15 && d[950 + r] == 15 by {
                assert(mask_has(d0[10] as int, r));
                assert(r != row);
                assert(d[950 + r] == d0[950 + r]);
            }
        }
    }
    Ok(())
}

/// Accumulating column `col` into row `row` keeps what a proof account records sound.
proof fn lemma_column_step_sound(d0: Seq<u8>, d: Seq<u8>, kd: Seq<u8>, sd: Seq<u8>, row: u8, col: u8)
    requires
        proof_sound(d0, kd, sd),
        d0.len() == MLDSA_PROOF_ACCOUNT_LEN,
        d.len() == MLDSA_PROOF_ACCOUNT_LEN,
        kd.len() == MLDSA_PUBLIC_KEY_BUFFER_LEN,
        row < 4,
        col < 4,
        d0[948] == 1,
        d0[950 + row] < 16,
        mask_has(d0[949] as int, col),
        !mask_has(d0[950 + row] as int, col),
        !mask_has(d0[10] as int, row),
        matrix_entry(buffered_prepared_key(kd).subrange(0, 32), row as int, col as int) is Some,
        d[950 + row] == with_bit(d0[950 + row], col),
        forall|k: int| 0 <= k < MLDSA_PROOF_ACCOUNT_LEN && k != 950 + row && !(6074 + 1024 * row <= k < 7098 + 1024 * row) ==> #[trigger] d[k] == d0[k],
        forall|n: int| 0 <= n < 256 ==> #[trigger] crate::mldsa44::protocol::mont_step(
            prepared_coeff(d0, 6074 + 1024 * row, n), prepared_coeff(d, 6074 + 1024 * row, n),
            matrix_entry(buffered_prepared_key(kd).subrange(0, 32), row as int, col as int)->0[n]
                * prepared_coeff(proof_prepared(d0), 1024 + 1024 * col, n)),
    ensures
        proof_sound(d, kd, sd),
{
    let pk = buffered_public_key(kd);
    let sig = buffered_signature(sd);
    let p0 = proof_prepared(d0);
    let p = proof_prepared(d);
    assert(pk.subrange(0, 32) =~= buffered_prepared_key(kd).subrange(0, 32));
    assert(p =~= p0) by {
        assert forall|k: int| 0 <= k < 5120 implies p[k] == p0[k] by {
            assert(d[954 + k] == d0[954 + k]);
        }
    }
    lemma_with_bit_has(d0[950 + row], col);
    assert forall|r: int, c: u8| 0 <= r < 4 && c < 4 && #[trigger] mask_has(d[950 + r] as int, c) implies mask_has(d[949] as int, c)
        && matrix_entry(pk.subrange(0, 32), r, c as int) is Some by {
        if r != row as int {
            assert(d[950 + r] == d0[950 + r]);
            assert(mask_has(d0[950 + r] as int, c));
        } else if c != col {
            assert(mask_has(d0[950 + r] as int, c));
        }
    }
    let ent = matrix_entry(pk.subrange(0, 32), row as int, col as int)->0;
    assert forall|r: int, n: int| 0 <= r < 4 && 0 <= n < 256 implies #[trigger] cong(prepared_coeff(d, 6074 + 1024 * r, n),
        az_masked(pk, sig, r, d[950 + r] as int, n)) by {
        let old_c = prepared_coeff(d0, 6074 + 1024 * r, n);
        assert(cong(old_c, az_masked(pk, sig, r, d0[950 + r] as int, n)));
        if r != row as int {
            let b = 6074 + 1024 * r + 4 * n;
            assert(d[b] == d0[b] && d[b + 1] == d0[b + 1] && d[b + 2] == d0[b + 2] && d[b + 3] == d0[b + 3]);
            assert(d[950 + r] == d0[950 + r]);
        } else {
            let new_c = prepared_coeff(d, 6074 + 1024 * r, n);
            let zs = prepared_coeff(p0, 1024 + 1024 * col, n);
            let zh = spec_ntt(z_poly(sig, col as int))[n];
            assert(crate::mldsa44::protocol::mont_step(old_c, new_c, ent[n] * zs));
            assert(prepared_ntt_mont(p0, 1024 + 1024 * col, z_poly(sig, col as int)));
            assert(cong(zs, zh * crate::mldsa44::arith::r32()));
            lemma_mont_product(new_c - old_c, ent[n], zs, zh);
            assert(az_term(pk, sig, r, col as int, n) == ent[n] * zh);
            lemma_cong_add(old_c, az_masked(pk, sig, r, d0[950 + r] as int, n), new_c - old_c, ent[n] * zh);
            assert(az_masked(pk, sig, r, d[950 + r] as int, n) == az_masked(pk, sig, r, d0[950 + r] as int, n) + az_term(pk, sig, r, col as int, n));
        }
    }
    assert forall|r: u8| r < 4 && #[trigger] mask_has(d[10] as int, r) implies d[950 + r] == 15
        && w1_row_from(d.subrange(180 + 192 * r, 372 + 192 * r), sig_hints(sig), r as int, w_approx(pk, sig, r as int)) by {
        assert(d[10] == d0[10]);
        assert(mask_has(d0[10] as int, r));
        assert(r != row);
        assert(d[950 + r] == d0[950 + r]);
        assert(d.subrange(180 + 192 * r, 372 + 192 * r) =~= d0.subrange(180 + 192 * r, 372 + 192 * r));
    }
    assert(d[948] == d0[948] && d[949] == d0[949]);
}

/// Outcome of finishing row `row` of `w1` (`data` = row).
pub open spec fn finalize_row_outcome(program_id: Seq<u8>, accounts: Seq<AccountHeader>, quorum_data: Seq<u8>, key_data: Seq<u8>, sig_data: Seq<u8>,
    d: Seq<u8>, data: Seq<u8>) -> Result<(), ProgramFailure> {
    if data.len() != 1 || data[0] >= 4 {
        Err(qfail(PqQuorumAuthError::InvalidInstructionData))
    } else {
        let row = data[0];
        match proof_step_check(program_id, accounts, quorum_data, key_data, sig_data, d) {
            Err(e) => Err(e),
            Ok(_) => if (d[10] as int / pow2_u8(row)) % 2 == 1 || d[948] != 1 || d[949] != MLDSA_PROOF_COMPLETE_MASK
                || d[950 + row] != MLDSA_PROOF_COMPLETE_MASK {
                Err(qfail(PqQuorumAuthError::InvalidMldsaProof))
            } else if !crate::mldsa44::encode::spec_hints_valid(crate::mldsa44::protocol::sig_hints(buffered_signature(sig_data))) {
                Err(qfail(PqQuorumAuthError::InvalidMldsaSignature))
            } else {
                Ok(())
            },
        }
    }
}

/// The finalize-row step: writes row `row` of `w1` into the proof account and marks the row
/// done.
pub fn process_finalize_mldsa_row(program_id: &[u8; 32], accounts: &[AccountHeader], quorum_data: &[u8], key_data: &[u8], sig_data: &[u8],
    proof_data: &mut [u8], data: &[u8]) -> (res: Result<(), ProgramFailure>)
    requires
        proof_wf(old(proof_data)@),
        key_buffer_wf(key_data@),
    ensures
        res == finalize_row_outcome(program_id@, accounts@, quorum_data@, key_data@, sig_data@, old(proof_data)@, data@),
        res is Err ==> final(proof_data)@ == old(proof_data)@,
        proof_wf(final(proof_data)@),
        res is Ok ==> final(proof_data)@.len() == old(proof_data)@.len()
            && final(proof_data)@[10] == with_bit(old(proof_data)@[10], data@[0])
            && (forall|k: int| 0 <= k < final(proof_data)@.len() && k != 10 && !(180 + 192 * data@[0] <= k < 372 + 192 * data@[0])
                ==> #[trigger] final(proof_data)@[k] == old(proof_data)@[k])
            && w1_row_from(final(proof_data)@.subrange(180 + 192 * data@[0], 372 + 192 * data@[0]),
                sig_hints(buffered_signature(sig_data@)), data@[0] as int,
                crate::mldsa44::protocol::finalized_row(buffered_prepared_key(key_data@), proof_prepared(old(proof_data)@),
                    old(proof_data)@.subrange(6074 + 1024 * data@[0], 7098 + 1024 * data@[0]), data@[0] as int)),
        key_buffer_sound(key_data@) && proof_sound(old(proof_data)@, key_data@, sig_data@) ==> proof_sound(final(proof_data)@, key_data@, sig_data@),
        proof_masks_ok(old(proof_data)@) ==> proof_masks_ok(final(proof_data)@),
        masks_grow(old(proof_data)@, final(proof_data)@),
{
    if data.len() != 1 || data[0] >= 4 {
        return Err(PqQuorumAuthError::InvalidInstructionData.into_failure());
    }
    let row = data[0];
    let state = check_proof_step(program_id, accounts, quorum_data, key_data, sig_data, proof_data)?;
    proof {
        lemma_bit(state.row_mask, row);
    }
    let row_bit: u8 = 1u8 << row;
    let mask_offset = PROOF_COLUMN_MASK_OFFSET + row as usize;
    if state.row_mask & row_bit != 0 || proof_data[PROOF_PREPARED_FLAG_OFFSET] != 1 || proof_data[PROOF_Z_MASK_OFFSET] != MLDSA_PROOF_COMPLETE_MASK
        || proof_data[mask_offset] != MLDSA_PROOF_COMPLETE_MASK {
        return Err(PqQuorumAuthError::InvalidMldsaProof.into_failure());
    }
    let az_start = PROOF_AZ_OFFSET + (row as usize) * 1024;
    let w1_start = PROOF_W1_OFFSET + (row as usize) * 192;
    let kslice = &key_data[86..5558];
    let sslice = &sig_data[86..2506];
    let pslice = &proof_data[954..6074];
    let azslice = &proof_data[az_start..az_start + 1024];
    let mut out = copy_out(proof_data, w1_start, 192);
    proof {
        assert(popcount4(15) == 4);
        let d = proof_data@;
        assert(prepared_poly_within(d, 6074 + 1024 * row, -4 * q(), 4 * q()));
        assert forall|k: int| 0 <= k < 1024 implies #[trigger] azslice@[0 + k] == d[az_start + k] by {}
        lemma_coeffs_shift(azslice@, 0, d, az_start as int);
        assert forall|n: int| 0 <= n < 256 implies -crate::mldsa44::protocol::az_bound() <= #[trigger] prepared_coeff(azslice@, 0, n) <= crate::mldsa44::protocol::az_bound() by {
            assert(prepared_coeff(azslice@, 0, n) == prepared_coeff(d, 6074 + 1024 * row, n));
        }
        assert forall|k: int| 0 <= k < 1024 implies #[trigger] pslice@[0 + k] == d[954 + k] by {}
        lemma_coeffs_shift(pslice@, 0, d, 954);
        assert forall|n: int| 0 <= n < 256 implies -ntt_out_bound() <= #[trigger] prepared_coeff(pslice@, 0, n) <= ntt_out_bound() by {
            assert(prepared_coeff(pslice@, 0, n) == prepared_coeff(d, 954, n));
        }
        assert(prepared_poly_within(key_data@, 86 + 1376 + 1024 * row, -q(), 2 * q() - 1));
        assert forall|k: int| 0 <= k < 1024 implies #[trigger] kslice@[(1376 + 1024 * row) + k] == key_data@[(86 + 1376 + 1024 * row) + k] by {}
        lemma_coeffs_shift(kslice@, 1376 + 1024 * row, key_data@, 86 + 1376 + 1024 * row);
        assert forall|n: int| 0 <= n < 256 implies -q() <= #[trigger] prepared_coeff(kslice@, 1376 + 1024 * row, n) <= 2 * q() - 1 by {
            assert(prepared_coeff(kslice@, 1376 + 1024 * row, n) == prepared_coeff(key_data@, 86 + 1376 + 1024 * row, n));
        }
        assert(sslice@ == buffered_signature(sig_data@));
    }
    if !finalize_mldsa44_row(kslice, sslice, pslice, row as usize, azslice, out.as_mut_slice()) {
        return Err(PqQuorumAuthError::InvalidMldsaSignature.into_failure());
    }
    write_bytes(proof_data, w1_start, out.as_slice());
    proof_data[PROOF_ROW_MASK_OFFSET] = state.row_mask | row_bit;
    proof {
        let d = proof_data@;
        assert(d.subrange(180, 948).subrange(192 * row, 192 * row + 192) =~= out@);
        assert(d.subrange(180 + 192 * row, 372 + 192 * row) =~= out@);
        assert(azslice@ == old(proof_data)@.subrange(6074 + 1024 * row, 7098 + 1024 * row));
        assert(kslice@ == buffered_prepared_key(key_data@));
        assert(pslice@ == proof_prepared(old(proof_data)@));
        assert forall|k: int| 954 <= k < 954 + 1024 implies #[trigger] d[k] == old(proof_data)@[k] by {}
        lemma_within_transfer(d, old(proof_data)@, 954, -ntt_out_bound(), ntt_out_bound());
        lemma_wf_prefix_change(old(proof_data)@, d);
        let d0 = old(proof_data)@;
        if key_buffer_sound(key_data@) && proof_sound(d0, key_data@, sig_data@) {
            lemma_finalize_step_sound(d0, d, key_data@, sig_data@, row);
        }
    }
    proof {
        let d0 = old(proof_data)@;
        let d = proof_data@;
        assert forall|i: int| (i == 10 || 949 <= i < 954) && i != 10 implies #[trigger] d[i] == d0[i] by {}
        lemma_step_masks(d0, d, 10, row, d0[948]);
        if proof_masks_ok(d0) {
            lemma_with_bit_has(d0[10], row);
            assert forall|r: int, c: u8| 0 <= r < 4 && c < 4 && #[trigger] mask_has(d[950 + r] as int, c) implies mask_has(d[949] as int, c) by {
                assert(d[950 + r] == d0[950 + r]);
                assert(mask_has(d0[950 + r] as int, c));
            }
            assert forall|r: u8| r < 4 && #[trigger] mask_has(d[10] as int, r) implies d[948] == 1 && d[949] == 15 && d[950 + r] == 15 by {
                assert(d[950 + r] == d0[950 + r]);
                if r != row {
                    assert(mask_has(d0[10] as int, r));
                }
            }
        }
    }
    Ok(())
}

/// Finishing row `row` keeps what a proof account records sound: the row written is that row
/// of `w1` for the buffered key and signature.
proof fn lemma_finalize_step_sound(d0: Seq<u8>, d: Seq<u8>, kd: Seq<u8>, sd: Seq<u8>, row: u8)
    requires
        proof_sound(d0, kd, sd),
        key_buffer_sound(kd),
        d0.len() == MLDSA_PROOF_ACCOUNT_LEN,
        d.len() == MLDSA_PROOF_ACCOUNT_LEN,
        kd.len() == MLDSA_PUBLIC_KEY_BUFFER_LEN,
        buffer_written(kd) == MLDSA44_PREPARED_PUBLIC_KEY_LEN,
        row < 4,
        d0[948] == 1,
        d0[10] < 16,
        d0[949] == 15,
        d0[950 + row] == 15,
        !mask_has(d0[10] as int, row),
        d[10] == with_bit(d0[10], row),
        forall|k: int| 0 <= k < MLDSA_PROOF_ACCOUNT_LEN && k != 10 && !(180 + 192 * row <= k < 372 + 192 * row) ==> #[trigger] d[k] == d0[k],
        w1_row_from(d.subrange(180 + 192 * row, 372 + 192 * row), sig_hints(buffered_signature(sd)), row as int,
            crate::mldsa44::protocol::finalized_row(buffered_prepared_key(kd), proof_prepared(d0),
                d0.subrange(6074 + 1024 * row, 7098 + 1024 * row), row as int)),
    ensures
        proof_sound(d, kd, sd),
{
    let pk = buffered_public_key(kd);
    let sig = buffered_signature(sd);
    let ppk = buffered_prepared_key(kd);
    let p0 = proof_prepared(d0);
    let az = d0.subrange(6074 + 1024 * row, 7098 + 1024 * row);
    assert(prepared_key_layout(ppk, pk));
    assert(prepared_ntt_mont(ppk, 1376 + 1024 * row, t1_scaled(pk, row as int)));
    assert forall|k: int| 0 <= k < 1024 implies #[trigger] az[0 + k] == d0[(6074 + 1024 * row) + k] by {}
    lemma_coeffs_shift(az, 0, d0, 6074 + 1024 * row);
    assert forall|n: int| 0 <= n < 256 implies #[trigger] cong(prepared_coeff(az, 0, n), az_partial(pk, sig, row as int, 4, n)) by {
        assert(prepared_coeff(az, 0, n) == prepared_coeff(d0, 6074 + 1024 * row, n));
        assert(cong(prepared_coeff(d0, 6074 + 1024 * row, n), az_masked(pk, sig, row as int, d0[950 + row] as int, n)));
        lemma_az_masked_full(pk, sig, row as int, n);
    }
    lemma_finalized_row_matches(ppk, p0, az, pk, sig, row as int);
    assert(proof_prepared(d) =~= p0) by {
        assert forall|k: int| 0 <= k < 5120 implies proof_prepared(d)[k] == p0[k] by {
            assert(d[954 + k] == d0[954 + k]);
        }
    }
    lemma_with_bit_has(d0[10], row);
    assert forall|r: int, n: int| 0 <= r < 4 && 0 <= n < 256 implies #[trigger] cong(prepared_coeff(d, 6074 + 1024 * r, n),
        az_masked(pk, sig, r, d[950 + r] as int, n)) by {
        let b = 6074 + 1024 * r + 4 * n;
        assert(d[b] == d0[b] && d[b + 1] == d0[b + 1] && d[b + 2] == d0[b + 2] && d[b + 3] == d0[b + 3]);
        assert(d[950 + r] == d0[950 + r]);
        assert(cong(prepared_coeff(d0, 6074 + 1024 * r, n), az_masked(pk, sig, r, d0[950 + r] as int, n)));
    }
    assert forall|r: int, c: u8| 0 <= r < 4 && c < 4 && #[trigger] mask_has(d[950 + r] as int, c) implies mask_has(d[949] as int, c)
        && matrix_entry(pk.subrange(0, 32), r, c as int) is Some by {
        assert(d[950 + r] == d0[950 + r]);
        assert(mask_has(d0[950 + r] as int, c));
    }
    assert forall|r: u8| r < 4 && #[trigger] mask_has(d[10] as int, r) implies d[950 + r] == 15
        && w1_row_from(d.subrange(180 + 192 * r, 372 + 192 * r), sig_hints(sig), r as int, w_approx(pk, sig, r as int)) by {
        assert(d[950 + r] == d0[950 + r]);
        if r != row {
            assert(mask_has(d0[10] as int, r));
            assert(d.subrange(180 + 192 * r, 372 + 192 * r) =~= d0.subrange(180 + 192 * r, 372 + 192 * r)) by {
                assert forall|k: int| 0 <= k < 192 implies #[trigger] d.subrange(180 + 192 * r, 372 + 192 * r)[k] == d0.subrange(180 + 192 * r, 372 + 192 * r)[k] by {
                    let x = 180 + 192 * r + k;
                    assert(!(180 + 192 * row <= x < 372 + 192 * row));
                }
            }
        }
    }
    assert(d[948] == d0[948] && d[949] == d0[949]);
}

/// Outcome of the final ML-DSA check of an approval: the proof account is complete, bound
/// to this payload, mode and nonce, and `SHAKE256(mu || w1)` matches `c~`.
pub open spec fn approval_outcome(program_id: Seq<u8>, authority: Seq<u8>, quorum: Seq<u8>, nonce: u64, mode: u8, key: AccountHeader, sig: AccountHeader,
    proof: AccountHeader, key_data: Seq<u8>, sig_data: Seq<u8>, d: Seq<u8>, payload: Seq<u8>) -> Result<(), PqQuorumAuthError> {
    if key.owner@ != program_id || sig.owner@ != program_id || proof.owner@ != program_id {
        Err(PqQuorumAuthError::InvalidAccountOwner)
    } else {
        let hash = crate::digest::spec_sha256(crate::quorum::payload::MLDSA_PROOF_PAYLOAD_TAG@ + payload);
        match proof_header_check(program_id, authority, quorum, proof.key@, d, Some(mode), key.key@, sig.key@, Some(hash)) {
            Err(e) => Err(e),
            Ok(_) => if proof_nonce(d) != nonce || d[10] != MLDSA_PROOF_COMPLETE_MASK || d[948] != 1 {
                Err(PqQuorumAuthError::InvalidMldsaProof)
            } else {
                match mldsa_buffers_check(program_id, authority, quorum, nonce, key.key@, key_data, sig.key@, sig_data) {
                    Err(e) => Err(e),
                    Ok(_) => if !commitment_matches(key_data.subrange(1398, 1462), payload, d.subrange(180, 948), sig_ctilde(buffered_signature(sig_data))) {
                        Err(PqQuorumAuthError::InvalidMldsaSignature)
                    } else {
                        Ok(())
                    },
                }
            },
        }
    }
}

/// Checks the ML-DSA part of an approval against a completed proof account.
pub fn verify_mldsa_proof_approval(program_id: &[u8; 32], authority: &[u8; 32], quorum: &[u8; 32], nonce: u64, mode: u8, key: &AccountHeader,
    sig: &AccountHeader, proof: &AccountHeader, key_data: &[u8], sig_data: &[u8], proof_data: &[u8], payload: &[u8]) -> (res: Result<(), PqQuorumAuthError>)
    ensures
        res == approval_outcome(program_id@, authority@, quorum@, nonce, mode, *key, *sig, *proof, key_data@, sig_data@, proof_data@, payload@),
        res is Ok && key_buffer_sound(key_data@) && proof_sound(proof_data@, key_data@, sig_data@)
            ==> mldsa44_accepts(buffered_public_key(key_data@), buffered_signature(sig_data@), payload@),
{
    if !keys_eq(&key.owner, program_id) || !keys_eq(&sig.owner, program_id) || !keys_eq(&proof.owner, program_id) {
        return Err(PqQuorumAuthError::InvalidAccountOwner);
    }
    let payload_hash = crate::quorum::payload::mldsa_proof_payload_hash(payload);
    let state = validate_mldsa_proof_header(program_id, authority, quorum, &proof.key, proof_data, Some(mode), &key.key, &sig.key, Some(&payload_hash))?;
    if state.quorum_nonce != nonce || state.row_mask != MLDSA_PROOF_COMPLETE_MASK || proof_data[PROOF_PREPARED_FLAG_OFFSET] != 1 {
        return Err(PqQuorumAuthError::InvalidMldsaProof);
    }
    validate_mldsa_buffer_data(program_id, authority, quorum, nonce, &key.key, key_data, &sig.key, sig_data)?;
    let kslice = &key_data[86..5558];
    let sslice = &sig_data[86..2506];
    let w1 = &proof_data[180..948];
    proof {
        assert(kslice@.subrange(1312, 1376) =~= key_data@.subrange(1398, 1462));
    }
    if !finalize_mldsa44_proof(kslice, sslice, payload, w1) {
        return Err(PqQuorumAuthError::InvalidMldsaSignature);
    }
    proof {
        if key_buffer_sound(key_data@) && proof_sound(proof_data@, key_data@, sig_data@) {
            law_sound_approval_accepts(program_id@, authority@, quorum@, nonce, mode, *key, *sig, *proof, key_data@, sig_data@, proof_data@, payload@);
        }
    }
    Ok(())
}

/// An ML-DSA approval that passes its checks against a proof account built soundly on the
/// buffers it names satisfies `mldsa44_accepts` (FIPS 204 verify with bounded sampling
/// streams) for the buffered signature on the approval payload, under the buffered key.
pub proof fn law_sound_approval_accepts(program_id: Seq<u8>, authority: Seq<u8>, quorum: Seq<u8>, nonce: u64, mode: u8, key: AccountHeader,
    sig: AccountHeader, proof: AccountHeader, key_data: Seq<u8>, sig_data: Seq<u8>, d: Seq<u8>, payload: Seq<u8>)
    requires
        approval_outcome(program_id, authority, quorum, nonce, mode, key, sig, proof, key_data, sig_data, d, payload) is Ok,
        key_buffer_sound(key_data),
        proof_sound(d, key_data, sig_data),
    ensures
        mldsa44_accepts(buffered_public_key(key_data), buffered_signature(sig_data), payload),
{
    lemma_complete_proof_accepts(d, key_data, sig_data, payload);
}

/// Every bit of the complete mask is set.
proof fn lemma_full_mask()
    ensures
        forall|c: u8| c < 4 ==> #[trigger] mask_has(15, c),
{
    assert forall|c: u8| c < 4 implies #[trigger] mask_has(15, c) by {
        if c == 0 {} else if c == 1 {} else if c == 2 {} else {}
    }
}

/// A sound proof account with every row finished, whose `w1` hashes with `mu` to `c~`, is an
/// accepting ML-DSA-44 verification of the buffered signature on `message`.
proof fn lemma_complete_proof_accepts(d: Seq<u8>, kd: Seq<u8>, sd: Seq<u8>, message: Seq<u8>)
    requires
        proof_sound(d, kd, sd),
        key_buffer_sound(kd),
        d.len() == MLDSA_PROOF_ACCOUNT_LEN,
        d[10] == MLDSA_PROOF_COMPLETE_MASK,
        d[948] == 1,
        kd.len() == MLDSA_PUBLIC_KEY_BUFFER_LEN,
        buffer_written(kd) == MLDSA44_PREPARED_PUBLIC_KEY_LEN,
        sd.len() == MLDSA_SIGNATURE_BUFFER_LEN,
        commitment_matches(kd.subrange(1398, 1462), message, d.subrange(180, 948), sig_ctilde(buffered_signature(sd))),
    ensures
        mldsa44_accepts(buffered_public_key(kd), buffered_signature(sd), message),
{
    let pk = buffered_public_key(kd);
    let sig = buffered_signature(sd);
    let w1 = d.subrange(180, 948);
    lemma_full_mask();
    assert(prepared_key_layout(buffered_prepared_key(kd), pk));
    assert(kd.subrange(1398, 1462) =~= buffered_prepared_key(kd).subrange(1312, 1376));
    assert forall|r: int| 0 <= r < 4 implies #[trigger] w1_row_from(w1.subrange(192 * r, 192 * r + 192), sig_hints(sig), r, w_approx(pk, sig, r)) by {
        assert(mask_has(d[10] as int, r as u8));
        assert(w1.subrange(192 * r, 192 * r + 192) =~= d.subrange(180 + 192 * r, 372 + 192 * r));
    }
    assert(w1_of(w1, pk, sig));
    assert forall|col: int| 0 <= col < 4 implies #[trigger] z_column_valid(sig, col) by {
        assert(mask_has(d[10] as int, 0u8));
        assert(d[950] == 15);
        assert(mask_has(d[950] as int, col as u8));
        assert(mask_has(d[949] as int, col as u8));
    }
    assert forall|row: int, col: int| 0 <= row < 4 && 0 <= col < 4 implies #[trigger] matrix_entry(pk.subrange(0, 32), row, col) is Some by {
        assert(mask_has(d[10] as int, row as u8));
        assert(d[950 + row] == 15);
        assert(mask_has(d[950 + row] as int, col as u8));
    }
}

// ---------------------------------------------------------------------------------------
// Range checks a caller can run before a proof step.

/// `true` when every coefficient of the polynomial stored at `offset` lies in `[lo, hi]`.
pub fn poly_within(d: &[u8], offset: usize, lo: i64, hi: i64) -> (b: bool)
    requires
        offset + 1024 <= d@.len(),
    ensures
        b == prepared_poly_within(d@, offset as int, lo as int, hi as int),
{
    let mut n: usize = 0;
    while n < 256
        invariant
            offset + 1024 <= d@.len(),
            n <= 256,
            forall|k: int| 0 <= k < n ==> lo <= #[trigger] prepared_coeff(d@, offset as int, k) <= hi,
        decreases 256 - n,
    {
        let c = read_prepared_coeff(d, offset, n) as i64;
        if c < lo || c > hi {
            return false;
        }
        n += 1;
    }
    true
}

/// Decides `proof_wf`: whether a proof account's stored challenge and rows are in range.
pub fn proof_in_range(d: &[u8]) -> (b: bool)
    ensures
        b == proof_wf(d@),
{
    if d.len() != MLDSA_PROOF_ACCOUNT_LEN {
        return true;
    }
    if d[948] == 1 && !poly_within(d, 954, -43_580_417, 43_580_417) {
        return false;
    }
    let mut r: usize = 0;
    while r < 4
        invariant
            d@.len() == MLDSA_PROOF_ACCOUNT_LEN,
            r <= 4,
            forall|k: int| 0 <= k < r ==> d@[950 + k] < 16 ==> #[trigger] prepared_poly_within(d@, 6074 + 1024 * k,
                -popcount4(d@[950 + k] as int) * q(), popcount4(d@[950 + k] as int) * q()),
        decreases 4 - r,
    {
        let m = d[950 + r];
        if m < 16 {
            let pc: i64 = (m % 2) as i64 + ((m / 2) % 2) as i64 + ((m / 4) % 2) as i64 + ((m / 8) % 2) as i64;
            let bound: i64 = pc * 8_380_417;
            if !poly_within(d, 6074 + 1024 * r, -bound, bound) {
                proof {
                    let k = r as int;
                    assert(pc == popcount4(d@[950 + k] as int));
                    assert(!prepared_poly_within(d@, 6074 + 1024 * k, -popcount4(d@[950 + k] as int) * q(), popcount4(d@[950 + k] as int) * q()));
                }
                return false;
            }
        }
        r += 1;
    }
    true
}

/// Decides `key_buffer_wf`: whether a complete key buffer's `t1` rows are reduced.
pub fn key_buffer_in_range(kd: &[u8]) -> (b: bool)
    ensures
        b == key_buffer_wf(kd@),
{
    if kd.len() != MLDSA_PUBLIC_KEY_BUFFER_LEN {
        return true;
    }
    match read_u16(kd, 84) {
        Some(w) => if w as usize != MLDSA44_PREPARED_PUBLIC_KEY_LEN { return true; },
        None => { return true; },
    }
    let mut r: usize = 0;
    while r < 4
        invariant
            kd@.len() == MLDSA_PUBLIC_KEY_BUFFER_LEN,
            buffer_written(kd@) == MLDSA44_PREPARED_PUBLIC_KEY_LEN,
            r <= 4,
            forall|k: int| 0 <= k < r ==> #[trigger] prepared_poly_within(kd@, 86 + 1376 + 1024 * k, -q(), 2 * q() - 1),
        decreases 4 - r,
    {
        if !poly_within(kd, 86 + 1376 + 1024 * r, -8_380_417, 2 * 8_380_417 - 1) {
            proof {
                let k = r as int;
                assert(!prepared_poly_within(kd@, 86 + 1376 + 1024 * k, -q(), 2 * q() - 1));
            }
            return false;
        }
        r += 1;
    }
    true
}

/// An ML-DSA buffer pair passes its checks only when the key buffer is this quorum's key
/// buffer (at its address under its stored bump) holding a whole prepared key, and the
/// signature buffer is this quorum's signature buffer for nonce `nonce` (at its per-nonce
/// address) holding a whole signature.
pub proof fn law_mldsa_buffers_requirements(program_id: Seq<u8>, authority: Seq<u8>, quorum: Seq<u8>, nonce: u64, key: Seq<u8>, key_data: Seq<u8>,
    sig: Seq<u8>, sig_data: Seq<u8>)
    ensures
        mldsa_buffers_check(program_id, authority, quorum, nonce, key, key_data, sig, sig_data) is Ok ==> {
            &&& key_data.len() == MLDSA_PUBLIC_KEY_BUFFER_LEN
            &&& buffer_fields_match(key_data, MLDSA_PUBLIC_KEY_DISCRIMINATOR@, authority, quorum)
            &&& pda_check(key_buffer_seeds(authority, quorum), program_id, key, key_data[9]) is Ok
            &&& buffer_written(key_data) == MLDSA44_PREPARED_PUBLIC_KEY_LEN
            &&& sig_data.len() == MLDSA_SIGNATURE_BUFFER_LEN
            &&& buffer_fields_match(sig_data, MLDSA_SIGNATURE_DISCRIMINATOR@, authority, quorum)
            &&& buffer_nonce(sig_data) == nonce
            &&& pda_check(nonce_seeds(MLDSA_SIGNATURE_SEED@, authority, quorum, nonce), program_id, sig, sig_data[9]) is Ok
            &&& buffer_written(sig_data) == MLDSA44_SIGNATURE_LEN
        },
{
}

/// A proof account passes its checks only when it is a proof account of this authority and
/// quorum for the named key and signature buffers, in an ML-DSA quorum mode (the expected one
/// when given), bound to the payload hash when given, with masks in range, at the per-nonce
/// proof address of its stored nonce under its stored bump.
pub proof fn law_proof_header_requirements(program_id: Seq<u8>, authority: Seq<u8>, quorum: Seq<u8>, proof: Seq<u8>, d: Seq<u8>,
    expected_mode: Option<u8>, key: Seq<u8>, sig: Seq<u8>, payload_hash: Option<Seq<u8>>)
    ensures
        proof_header_check(program_id, authority, quorum, proof, d, expected_mode, key, sig, payload_hash) is Ok ==> {
            &&& d.len() == MLDSA_PROOF_ACCOUNT_LEN
            &&& d.subrange(0, 8) == MLDSA_PROOF_DISCRIMINATOR@
            &&& d[8] == VERSION
            &&& (d[11] == QUORUM_MODE_FALCON_MLDSA || d[11] == QUORUM_MODE_WINTERNITZ_MLDSA)
            &&& expected_mode matches Some(m) ==> d[11] == m
            &&& d.subrange(12, 44) == authority
            &&& d.subrange(44, 76) == quorum
            &&& d.subrange(84, 116) == key
            &&& d.subrange(116, 148) == sig
            &&& payload_hash matches Some(h) ==> d.subrange(148, 180) == h
            &&& d[10] < 16 && d[948] <= 1 && d[949] < 16
            &&& pda_check(nonce_seeds(MLDSA_PROOF_SEED@, authority, quorum, proof_nonce(d)), program_id, proof, d[9]) is Ok
        },
{
}

/// The ML-DSA part of an approval is accepted only when key buffer, signature buffer and
/// proof account are the program's; the proof account is bound to this authority, quorum,
/// mode, the two buffers, the hash of this payload and this quorum nonce; every row is
/// finished and the challenge prepared; both buffers are complete for this nonce; and
/// `SHAKE256(mu || w1)` over the stored `w1` equals the signature's `c~`.
pub proof fn law_approval_requirements(program_id: Seq<u8>, authority: Seq<u8>, quorum: Seq<u8>, nonce: u64, mode: u8, key: AccountHeader,
    sig: AccountHeader, proof: AccountHeader, key_data: Seq<u8>, sig_data: Seq<u8>, d: Seq<u8>, payload: Seq<u8>)
    ensures
        approval_outcome(program_id, authority, quorum, nonce, mode, key, sig, proof, key_data, sig_data, d, payload) is Ok ==> {
            &&& key.owner@ == program_id && sig.owner@ == program_id && proof.owner@ == program_id
            &&& proof_header_check(program_id, authority, quorum, proof.key@, d, Some(mode), key.key@, sig.key@,
                Some(crate::digest::spec_sha256(crate::quorum::payload::MLDSA_PROOF_PAYLOAD_TAG@ + payload))) is Ok
            &&& proof_nonce(d) == nonce
            &&& d[10] == MLDSA_PROOF_COMPLETE_MASK
            &&& d[948] == 1
            &&& mldsa_buffers_check(program_id, authority, quorum, nonce, key.key@, key_data, sig.key@, sig_data) is Ok
            &&& commitment_matches(key_data.subrange(1398, 1462), payload, d.subrange(180, 948), sig_ctilde(buffered_signature(sig_data)))
        },
{
}

/// Every proof step runs only for the signing authority, on a writable proof account, with
/// quorum, proof and both buffers owned by the program and distinct, a quorum of the
/// authority, a proof account bound to this authority, quorum and the two buffers, and both
/// buffers complete for the proof's nonce.
pub proof fn law_proof_step_requirements(program_id: Seq<u8>, accounts: Seq<AccountHeader>, quorum_data: Seq<u8>, key_data: Seq<u8>,
    sig_data: Seq<u8>, d: Seq<u8>)
    ensures
        proof_step_check(program_id, accounts, quorum_data, key_data, sig_data, d) is Ok ==> {
            &&& accounts.len() >= 5
            &&& accounts[0].is_signer && accounts[2].is_writable
            &&& accounts[1].owner@ == program_id && accounts[2].owner@ == program_id && accounts[3].owner@ == program_id
                && accounts[4].owner@ == program_id
            &&& keys_distinct(accounts.take(5).map_values(|a: AccountHeader| a.key))
            &&& quorum_authority_check(accounts[0].key@, quorum_data)
            &&& proof_header_check(program_id, accounts[0].key@, accounts[1].key@, accounts[2].key@, d, None, accounts[3].key@, accounts[4].key@,
                None) is Ok
            &&& mldsa_buffers_check(program_id, accounts[0].key@, accounts[1].key@, proof_nonce(d), accounts[3].key@, key_data, accounts[4].key@,
                sig_data) is Ok
        },
{
}

/// The proof steps run in order. The challenge is prepared only on an untouched proof
/// (no row, no z column, not yet prepared) of a signature whose challenge and hints decode;
/// a z column is prepared only after the challenge, before any row, once, and only when it is
/// in range; a matrix column is added to a row only after its z column, once per row and
/// column, before the row is finished; a row is finished only after every z column and every
/// column of that row, once, and only with well-formed hints.
pub proof fn law_proof_steps_in_order(program_id: Seq<u8>, accounts: Seq<AccountHeader>, quorum_data: Seq<u8>, key_data: Seq<u8>,
    sig_data: Seq<u8>, d: Seq<u8>, data: Seq<u8>)
    ensures
        prepare_proof_outcome(program_id, accounts, quorum_data, key_data, sig_data, d, data) is Ok ==> {
            &&& data.len() == 0
            &&& proof_step_check(program_id, accounts, quorum_data, key_data, sig_data, d) is Ok
            &&& d[10] == 0 && d[948] == 0 && d[949] == 0
            &&& crate::mldsa44::protocol::challenge_of(buffered_signature(sig_data)) is Some
            &&& spec_hints_valid(sig_hints(buffered_signature(sig_data)))
        },
        prepare_z_outcome(program_id, accounts, quorum_data, key_data, sig_data, d, data) is Ok ==> {
            &&& data.len() == 1 && data[0] < 4
            &&& proof_step_check(program_id, accounts, quorum_data, key_data, sig_data, d) is Ok
            &&& d[10] == 0 && d[948] == 1
            &&& !mask_has(d[949] as int, data[0])
            &&& z_column_valid(buffered_signature(sig_data), data[0] as int)
        },
        prove_column_outcome(program_id, accounts, quorum_data, key_data, sig_data, d, data) is Ok ==> {
            &&& data.len() == 2 && data[0] < 4 && data[1] < 4
            &&& proof_step_check(program_id, accounts, quorum_data, key_data, sig_data, d) is Ok
            &&& d[948] == 1
            &&& !mask_has(d[10] as int, data[0])
            &&& mask_has(d[949] as int, data[1])
            &&& !mask_has(d[950 + data[0]] as int, data[1])
            &&& matrix_entry(buffered_prepared_key(key_data).subrange(0, 32), data[0] as int, data[1] as int) is Some
        },
        finalize_row_outcome(program_id, accounts, quorum_data, key_data, sig_data, d, data) is Ok ==> {
            &&& data.len() == 1 && data[0] < 4
            &&& proof_step_check(program_id, accounts, quorum_data, key_data, sig_data, d) is Ok
            &&& d[948] == 1
            &&& !mask_has(d[10] as int, data[0])
            &&& d[949] == MLDSA_PROOF_COMPLETE_MASK
            &&& d[950 + data[0]] == MLDSA_PROOF_COMPLETE_MASK
            &&& spec_hints_valid(sig_hints(buffered_signature(sig_data)))
        },
{
}

} // verus!
