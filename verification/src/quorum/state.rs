//! The quorum account: who the quorum belongs to, which Falcon key approves for it, the
//! current Winternitz root, and the quorum nonce.
use vstd::prelude::*;
use vstd::bytes::{spec_u64_from_le_bytes, spec_u64_to_le_bytes, u64_to_le_bytes, lemma_auto_spec_u64_to_from_le_bytes};
use crate::digest::{find_program_address, spec_find_program_address, seeds_view};
use crate::falcon_auth::FALCON_KEY_SEED;
use crate::runtime::{AccountHeader, ProgramFailure, keys_eq, bytes_eq, read_u64, write_bytes, spliced};

verus! {

pub const VERSION: u8 = 1;
/// `b"pq-quorum"`
pub const QUORUM_SEED: [u8; 9] = [112, 113, 45, 113, 117, 111, 114, 117, 109];
/// `b"wots-sig"`
pub const WINTERNITZ_SIGNATURE_SEED: [u8; 8] = [119, 111, 116, 115, 45, 115, 105, 103];
/// `b"mldsa-key"`
pub const MLDSA_PUBLIC_KEY_SEED: [u8; 9] = [109, 108, 100, 115, 97, 45, 107, 101, 121];
/// `b"mldsa-sig"`
pub const MLDSA_SIGNATURE_SEED: [u8; 9] = [109, 108, 100, 115, 97, 45, 115, 105, 103];
/// `b"mldsa-proof"`
pub const MLDSA_PROOF_SEED: [u8; 11] = [109, 108, 100, 115, 97, 45, 112, 114, 111, 111, 102];
/// `b"PQQRM001"`
pub const QUORUM_DISCRIMINATOR: [u8; 8] = [80, 81, 81, 82, 77, 48, 48, 49];
pub const QUORUM_MODE_FALCON_MLDSA: u8 = 5;
pub const QUORUM_MODE_WINTERNITZ_MLDSA: u8 = 6;

pub const BUMP_OFFSET: usize = 9;
pub const CLUSTER_OFFSET: usize = 10;
pub const RESERVED_OFFSET: usize = 11;
pub const AUTHORITY_OFFSET: usize = 12;
pub const FALCON_AUTH_PROGRAM_OFFSET: usize = 44;
pub const FALCON_KEY_OFFSET: usize = 76;
pub const WINTERNITZ_ROOT_OFFSET: usize = 108;
pub const NEXT_NONCE_OFFSET: usize = 140;
pub const QUORUM_ACCOUNT_LEN: usize = 148;

/// Errors of the quorum program.
#[derive(Clone, Copy, PartialEq, Eq, Structural, Debug)]
pub enum PqQuorumAuthError {
    InvalidInstructionData,
    InvalidAccountOwner,
    InvalidAccountData,
    InvalidPda,
    InvalidFalconAuthProgram,
    InvalidWinternitzSignature,
    NonceMismatch,
    ExpiredAction,
    ArithmeticOverflow,
    UnsupportedScheme,
    ClusterMismatch,
    InvalidWinternitzRoot,
    InvalidSignatureBuffer,
    InvalidMldsaPublicKey,
    InvalidMldsaSignature,
    InvalidMldsaProof,
}

impl PqQuorumAuthError {
    pub open spec fn spec_code(self) -> u32 {
        match self {
            PqQuorumAuthError::InvalidInstructionData => 1,
            PqQuorumAuthError::InvalidAccountOwner => 2,
            PqQuorumAuthError::InvalidAccountData => 3,
            PqQuorumAuthError::InvalidPda => 4,
            PqQuorumAuthError::InvalidFalconAuthProgram => 5,
            PqQuorumAuthError::InvalidWinternitzSignature => 6,
            PqQuorumAuthError::NonceMismatch => 7,
            PqQuorumAuthError::ExpiredAction => 8,
            PqQuorumAuthError::ArithmeticOverflow => 9,
            PqQuorumAuthError::UnsupportedScheme => 10,
            PqQuorumAuthError::ClusterMismatch => 11,
            PqQuorumAuthError::InvalidWinternitzRoot => 12,
            PqQuorumAuthError::InvalidSignatureBuffer => 13,
            PqQuorumAuthError::InvalidMldsaPublicKey => 14,
            PqQuorumAuthError::InvalidMldsaSignature => 15,
            PqQuorumAuthError::InvalidMldsaProof => 16,
        }
    }

    /// The custom error code the program answers with.
    pub fn code(&self) -> (c: u32)
        ensures
            c == self.spec_code(),
    {
        match self {
            PqQuorumAuthError::InvalidInstructionData => 1,
            PqQuorumAuthError::InvalidAccountOwner => 2,
            PqQuorumAuthError::InvalidAccountData => 3,
            PqQuorumAuthError::InvalidPda => 4,
            PqQuorumAuthError::InvalidFalconAuthProgram => 5,
            PqQuorumAuthError::InvalidWinternitzSignature => 6,
            PqQuorumAuthError::NonceMismatch => 7,
            PqQuorumAuthError::ExpiredAction => 8,
            PqQuorumAuthError::ArithmeticOverflow => 9,
            PqQuorumAuthError::UnsupportedScheme => 10,
            PqQuorumAuthError::ClusterMismatch => 11,
            PqQuorumAuthError::InvalidWinternitzRoot => 12,
            PqQuorumAuthError::InvalidSignatureBuffer => 13,
            PqQuorumAuthError::InvalidMldsaPublicKey => 14,
            PqQuorumAuthError::InvalidMldsaSignature => 15,
            PqQuorumAuthError::InvalidMldsaProof => 16,
        }
    }

    /// The runtime error carrying this code.
    pub fn into_failure(self) -> (f: ProgramFailure)
        ensures
            f == ProgramFailure::Custom(self.spec_code()),
    {
        ProgramFailure::Custom(self.code())
    }
}

pub open spec fn qfail(e: PqQuorumAuthError) -> ProgramFailure {
    ProgramFailure::Custom(e.spec_code())
}

/// Whether `mode` names one of the two ML-DSA quorums.
pub fn is_mldsa_quorum_mode(mode: u8) -> (b: bool)
    ensures
        b == (mode == QUORUM_MODE_FALCON_MLDSA || mode == QUORUM_MODE_WINTERNITZ_MLDSA),
{
    mode == QUORUM_MODE_FALCON_MLDSA || mode == QUORUM_MODE_WINTERNITZ_MLDSA
}

/// No key occurs twice.
pub open spec fn keys_distinct(keys: Seq<[u8; 32]>) -> bool {
    forall|i: int, j: int| 0 <= i < j < keys.len() ==> #[trigger] keys[i]@ != #[trigger] keys[j]@
}

/// Refuses an account list in which one account appears twice.
pub fn reject_duplicate_runtime_accounts(keys: &[[u8; 32]]) -> (res: Result<(), ProgramFailure>)
    ensures
        res is Ok <==> keys_distinct(keys@),
        res is Err ==> res == Err::<(), ProgramFailure>(ProgramFailure::InvalidArgument),
{
    let mut i: usize = 0;
    while i < keys.len()
        invariant
            i <= keys@.len(),
            forall|a: int, b: int| 0 <= a < i && a < b < keys@.len() ==> #[trigger] keys@[a]@ != #[trigger] keys@[b]@,
        decreases keys@.len() - i,
    {
        let mut j: usize = i + 1;
        while j < keys.len()
            invariant
                i < keys@.len(),
                i + 1 <= j <= keys@.len(),
                forall|a: int, b: int| 0 <= a < i && a < b < keys@.len() ==> #[trigger] keys@[a]@ != #[trigger] keys@[b]@,
                forall|b: int| i < b < j ==> keys@[i as int]@ != #[trigger] keys@[b]@,
            decreases keys@.len() - j,
        {
            if keys_eq(&keys[i], &keys[j]) {
                return Err(ProgramFailure::InvalidArgument);
            }
            j += 1;
        }
        i += 1;
    }
    Ok(())
}

// ---------------------------------------------------------------------------------------
// Program-derived addresses.

/// `Ok` when `key` is the canonical address of `seeds` under `program_id` with bump `bump`.
pub open spec fn pda_check(seeds: Seq<Seq<u8>>, program_id: Seq<u8>, key: Seq<u8>, bump: u8) -> Result<(), PqQuorumAuthError> {
    match spec_find_program_address(seeds, program_id) {
        None => Err(PqQuorumAuthError::InvalidPda),
        Some((k, b)) => if k != key || b != bump { Err(PqQuorumAuthError::InvalidPda) } else { Ok(()) },
    }
}

/// Checks `key` and `bump` against the canonical address of `seeds`.
pub fn check_pda<const N: usize>(seeds: &[&[u8]; N], program_id: &[u8; 32], key: &[u8; 32], bump: u8) -> (res: Result<(), PqQuorumAuthError>)
    ensures
        res == pda_check(seeds_view(seeds@), program_id@, key@, bump),
{
    match find_program_address(seeds, program_id) {
        None => Err(PqQuorumAuthError::InvalidPda),
        Some((k, b)) => if !keys_eq(&k, key) || b != bump { Err(PqQuorumAuthError::InvalidPda) } else { Ok(()) },
    }
}

pub open spec fn quorum_seeds(authority: Seq<u8>, falcon_auth_program: Seq<u8>) -> Seq<Seq<u8>> {
    seq![QUORUM_SEED@, authority, falcon_auth_program]
}

pub open spec fn falcon_key_seeds(authority: Seq<u8>) -> Seq<Seq<u8>> {
    seq![FALCON_KEY_SEED@, authority]
}

/// Checks that `quorum` is the quorum PDA of `authority` and the Falcon program.
pub fn validate_quorum_pda(program_id: &[u8; 32], authority: &[u8; 32], falcon_auth_program: &[u8; 32], quorum: &[u8; 32], bump: u8) -> (res: Result<(), PqQuorumAuthError>)
    ensures
        res == pda_check(quorum_seeds(authority@, falcon_auth_program@), program_id@, quorum@, bump),
{
    let seeds: [&[u8]; 3] = [QUORUM_SEED.as_slice(), authority.as_slice(), falcon_auth_program.as_slice()];
    proof {
        assert(seeds_view(seeds@) =~= quorum_seeds(authority@, falcon_auth_program@));
    }
    check_pda(&seeds, program_id, quorum, bump)
}

/// `Ok` when `falcon_key` is the Falcon key PDA of `authority` under the Falcon program
/// (any bump).
pub open spec fn falcon_key_pda_check(falcon_auth_program: Seq<u8>, authority: Seq<u8>, falcon_key: Seq<u8>) -> Result<(), PqQuorumAuthError> {
    match spec_find_program_address(falcon_key_seeds(authority), falcon_auth_program) {
        None => Err(PqQuorumAuthError::InvalidPda),
        Some((k, _)) => if k != falcon_key { Err(PqQuorumAuthError::InvalidPda) } else { Ok(()) },
    }
}

/// Checks that `falcon_key` is the Falcon key PDA of `authority`.
pub fn validate_falcon_key_pda(falcon_auth_program: &[u8; 32], authority: &[u8; 32], falcon_key: &[u8; 32]) -> (res: Result<(), PqQuorumAuthError>)
    ensures
        res == falcon_key_pda_check(falcon_auth_program@, authority@, falcon_key@),
{
    let seeds: [&[u8]; 2] = [FALCON_KEY_SEED.as_slice(), authority.as_slice()];
    proof {
        assert(seeds_view(seeds@) =~= falcon_key_seeds(authority@));
    }
    match find_program_address(&seeds, falcon_auth_program) {
        None => Err(PqQuorumAuthError::InvalidPda),
        Some((k, _)) => if !keys_eq(&k, falcon_key) { Err(PqQuorumAuthError::InvalidPda) } else { Ok(()) },
    }
}

/// Seeds of a per-nonce buffer: `[seed, authority, quorum, nonce (LE)]`.
pub open spec fn nonce_seeds(seed: Seq<u8>, authority: Seq<u8>, quorum: Seq<u8>, nonce: u64) -> Seq<Seq<u8>> {
    seq![seed, authority, quorum, spec_u64_to_le_bytes(nonce)]
}

/// Checks a per-nonce buffer PDA (Winternitz signature, ML-DSA signature, ML-DSA proof).
pub fn validate_nonce_pda(seed: &[u8], program_id: &[u8; 32], authority: &[u8; 32], quorum: &[u8; 32], nonce: u64, key: &[u8; 32], bump: u8) -> (res: Result<(), PqQuorumAuthError>)
    ensures
        res == pda_check(nonce_seeds(seed@, authority@, quorum@, nonce), program_id@, key@, bump),
{
    let nonce_bytes = u64_to_le_bytes(nonce);
    let seeds: [&[u8]; 4] = [seed, authority.as_slice(), quorum.as_slice(), nonce_bytes.as_slice()];
    proof {
        assert(seeds_view(seeds@) =~= nonce_seeds(seed@, authority@, quorum@, nonce));
    }
    check_pda(&seeds, program_id, key, bump)
}

/// Seeds of the ML-DSA public key buffer: `[seed, authority, quorum]`.
pub open spec fn key_buffer_seeds(authority: Seq<u8>, quorum: Seq<u8>) -> Seq<Seq<u8>> {
    seq![MLDSA_PUBLIC_KEY_SEED@, authority, quorum]
}

/// Checks the ML-DSA public key buffer PDA.
pub fn validate_mldsa_public_key_pda(program_id: &[u8; 32], authority: &[u8; 32], quorum: &[u8; 32], key: &[u8; 32], bump: u8) -> (res: Result<(), PqQuorumAuthError>)
    ensures
        res == pda_check(key_buffer_seeds(authority@, quorum@), program_id@, key@, bump),
{
    let seeds: [&[u8]; 3] = [MLDSA_PUBLIC_KEY_SEED.as_slice(), authority.as_slice(), quorum.as_slice()];
    proof {
        assert(seeds_view(seeds@) =~= key_buffer_seeds(authority@, quorum@));
    }
    check_pda(&seeds, program_id, key, bump)
}

// ---------------------------------------------------------------------------------------
// The quorum account.

/// The quorum account's contents.
pub open spec fn quorum_account(bump: u8, cluster: u8, authority: Seq<u8>, falcon_auth_program: Seq<u8>, falcon_key: Seq<u8>, root: Seq<u8>, next_nonce: u64) -> Seq<u8> {
    QUORUM_DISCRIMINATOR@ + seq![VERSION, bump, cluster, 0u8] + authority + falcon_auth_program + falcon_key + root
        + spec_u64_to_le_bytes(next_nonce)
}

/// Writes a quorum account.
pub fn write_quorum_state(data: &mut [u8], bump: u8, cluster: u8, authority: &[u8], falcon_auth_program: &[u8], falcon_key: &[u8], root: &[u8; 32], next_nonce: u64) -> (res: Result<(), ProgramFailure>)
    ensures
        res is Ok <==> (old(data)@.len() == QUORUM_ACCOUNT_LEN && authority@.len() == 32 && falcon_auth_program@.len() == 32 && falcon_key@.len() == 32),
        res is Err ==> res == Err::<(), ProgramFailure>(ProgramFailure::AccountDataTooSmall) && final(data)@ == old(data)@,
        res is Ok ==> final(data)@ == quorum_account(bump, cluster, authority@, falcon_auth_program@, falcon_key@, root@, next_nonce),
{
    if data.len() != QUORUM_ACCOUNT_LEN || authority.len() != 32 || falcon_auth_program.len() != 32 || falcon_key.len() != 32 {
        return Err(ProgramFailure::AccountDataTooSmall);
    }
    write_bytes(data, 0, QUORUM_DISCRIMINATOR.as_slice());
    data[8] = VERSION;
    data[BUMP_OFFSET] = bump;
    data[CLUSTER_OFFSET] = cluster;
    data[RESERVED_OFFSET] = 0;
    write_bytes(data, AUTHORITY_OFFSET, authority);
    write_bytes(data, FALCON_AUTH_PROGRAM_OFFSET, falcon_auth_program);
    write_bytes(data, FALCON_KEY_OFFSET, falcon_key);
    write_bytes(data, WINTERNITZ_ROOT_OFFSET, root.as_slice());
    let nonce_bytes = u64_to_le_bytes(next_nonce);
    write_bytes(data, NEXT_NONCE_OFFSET, nonce_bytes.as_slice());
    proof {
        assert(data@ =~= quorum_account(bump, cluster, authority@, falcon_auth_program@, falcon_key@, root@, next_nonce));
    }
    Ok(())
}

/// The stored quorum nonce.
pub open spec fn quorum_nonce(d: Seq<u8>) -> u64 {
    spec_u64_from_le_bytes(d.subrange(140, 148))
}

/// The stored Winternitz root.
pub open spec fn quorum_root(d: Seq<u8>) -> Seq<u8> {
    d.subrange(108, 140)
}

/// The checks of a quorum account against the accounts an instruction names.
pub open spec fn quorum_state_check(program_id: Seq<u8>, authority: Seq<u8>, quorum: Seq<u8>, falcon_auth_program: Seq<u8>, falcon_key: Seq<u8>, d: Seq<u8>) -> Result<(), PqQuorumAuthError> {
    if d.len() != QUORUM_ACCOUNT_LEN || d.subrange(0, 8) != QUORUM_DISCRIMINATOR@ || d[8] != VERSION || d[11] != 0
        || d.subrange(12, 44) != authority {
        Err(PqQuorumAuthError::InvalidAccountData)
    } else if d.subrange(44, 76) != falcon_auth_program {
        Err(PqQuorumAuthError::InvalidFalconAuthProgram)
    } else if d.subrange(76, 108) != falcon_key {
        Err(PqQuorumAuthError::InvalidAccountData)
    } else if pda_check(quorum_seeds(authority, falcon_auth_program), program_id, quorum, d[9]) is Err {
        Err(PqQuorumAuthError::InvalidPda)
    } else {
        falcon_key_pda_check(falcon_auth_program, authority, falcon_key)
    }
}

/// What the verifying instructions read of a quorum account.
#[derive(Clone, Copy)]
pub struct QuorumState {
    pub cluster: u8,
    pub next_nonce: u64,
    pub winternitz_root: [u8; 32],
}

/// Checks a quorum account and reads its cluster, nonce and Winternitz root.
pub fn validate_quorum_state(program_id: &[u8; 32], authority: &[u8; 32], quorum: &[u8; 32], falcon_auth_program: &[u8; 32], falcon_key: &[u8; 32], data: &[u8]) -> (res: Result<QuorumState, PqQuorumAuthError>)
    ensures
        match res {
            Ok(s) => quorum_state_check(program_id@, authority@, quorum@, falcon_auth_program@, falcon_key@, data@) is Ok
                && s.cluster == data@[10] && s.next_nonce == quorum_nonce(data@) && s.winternitz_root@ == quorum_root(data@),
            Err(e) => quorum_state_check(program_id@, authority@, quorum@, falcon_auth_program@, falcon_key@, data@) == Err::<(), PqQuorumAuthError>(e),
        },
{
    if data.len() != QUORUM_ACCOUNT_LEN || !bytes_eq(&data[0..8], QUORUM_DISCRIMINATOR.as_slice()) || data[8] != VERSION
        || data[RESERVED_OFFSET] != 0 || !bytes_eq(&data[12..44], authority.as_slice()) {
        return Err(PqQuorumAuthError::InvalidAccountData);
    }
    if !bytes_eq(&data[44..76], falcon_auth_program.as_slice()) {
        return Err(PqQuorumAuthError::InvalidFalconAuthProgram);
    }
    if !bytes_eq(&data[76..108], falcon_key.as_slice()) {
        return Err(PqQuorumAuthError::InvalidAccountData);
    }
    validate_quorum_pda(program_id, authority, falcon_auth_program, quorum, data[BUMP_OFFSET])?;
    validate_falcon_key_pda(falcon_auth_program, authority, falcon_key)?;
    let next_nonce = match read_u64(data, NEXT_NONCE_OFFSET) {
        Some(v) => v,
        None => { return Err(PqQuorumAuthError::InvalidInstructionData); },
    };
    let mut root = [0u8; 32];
    let mut k: usize = 0;
    while k < 32
        invariant
            data@.len() == 148,
            k <= 32,
            forall|i: int| 0 <= i < k ==> #[trigger] root@[i] == data@[108 + i],
        decreases 32 - k,
    {
        root[k] = data[108 + k];
        k += 1;
    }
    proof {
        assert(root@ =~= quorum_root(data@));
    }
    Ok(QuorumState { cluster: data[CLUSTER_OFFSET], next_nonce, winternitz_root: root })
}

/// The quorum's light check: the account is a quorum account of `authority`.
pub open spec fn quorum_authority_check(authority: Seq<u8>, d: Seq<u8>) -> bool {
    d.len() == QUORUM_ACCOUNT_LEN && d.subrange(0, 8) == QUORUM_DISCRIMINATOR@ && d[8] == VERSION && d.subrange(12, 44) == authority
}

/// Checks that the quorum account belongs to `authority`.
pub fn validate_quorum_authority(authority: &[u8; 32], data: &[u8]) -> (res: Result<(), PqQuorumAuthError>)
    ensures
        res is Ok <==> quorum_authority_check(authority@, data@),
        res is Err ==> res == Err::<(), PqQuorumAuthError>(PqQuorumAuthError::InvalidAccountData),
{
    if data.len() != QUORUM_ACCOUNT_LEN || !bytes_eq(&data[0..8], QUORUM_DISCRIMINATOR.as_slice()) || data[8] != VERSION
        || !bytes_eq(&data[12..44], authority.as_slice()) {
        return Err(PqQuorumAuthError::InvalidAccountData);
    }
    Ok(())
}

/// `d` after an approved action: the nonce advanced and, when given, the root rotated.
pub open spec fn advanced_quorum(d: Seq<u8>, nonce: u64, next_root: Option<Seq<u8>>) -> Seq<u8> {
    let r = match next_root { Some(root) => spliced(d, 108, root), None => d };
    spliced(r, 140, spec_u64_to_le_bytes((nonce + 1) as u64))
}

/// Re-checks the quorum account and advances its nonce (and rotates the Winternitz root).
pub fn advance_quorum_nonce(program_id: &[u8; 32], authority: &[u8; 32], quorum: &[u8; 32], falcon_auth_program: &[u8; 32], falcon_key: &[u8; 32],
    data: &mut [u8], nonce: u64, next_root: Option<&[u8; 32]>) -> (res: Result<(), PqQuorumAuthError>)
    ensures
        match res {
            Ok(_) => nonce < u64::MAX && quorum_state_check(program_id@, authority@, quorum@, falcon_auth_program@, falcon_key@, old(data)@) is Ok
                && quorum_nonce(old(data)@) == nonce
                && final(data)@ == advanced_quorum(old(data)@, nonce, match next_root { Some(r) => Some(r@), None => None }),
            Err(e) => final(data)@ == old(data)@ && (
                (nonce == u64::MAX && e == PqQuorumAuthError::ArithmeticOverflow)
                || (nonce < u64::MAX && quorum_state_check(program_id@, authority@, quorum@, falcon_auth_program@, falcon_key@, old(data)@) == Err::<(), PqQuorumAuthError>(e))
                || (nonce < u64::MAX && quorum_state_check(program_id@, authority@, quorum@, falcon_auth_program@, falcon_key@, old(data)@) is Ok
                    && quorum_nonce(old(data)@) != nonce && e == PqQuorumAuthError::NonceMismatch)),
        },
{
    let next_nonce = match nonce.checked_add(1) {
        Some(n) => n,
        None => { return Err(PqQuorumAuthError::ArithmeticOverflow); },
    };
    let state = validate_quorum_state(program_id, authority, quorum, falcon_auth_program, falcon_key, data)?;
    if state.next_nonce != nonce {
        return Err(PqQuorumAuthError::NonceMismatch);
    }
    match next_root {
        Some(root) => { write_bytes(data, WINTERNITZ_ROOT_OFFSET, root.as_slice()); },
        None => {},
    }
    let bytes = u64_to_le_bytes(next_nonce);
    write_bytes(data, NEXT_NONCE_OFFSET, bytes.as_slice());
    Ok(())
}

/// The checks a verifying instruction makes before any signature: expiry, the quorum
/// account, the cluster and the quorum nonce.
pub open spec fn verify_state_check(program_id: Seq<u8>, authority: Seq<u8>, quorum: Seq<u8>, falcon_auth_program: Seq<u8>, falcon_key: Seq<u8>,
    d: Seq<u8>, cluster: u8, nonce: u64, expires_slot: u64, slot: u64) -> Result<(), PqQuorumAuthError> {
    if slot > expires_slot {
        Err(PqQuorumAuthError::ExpiredAction)
    } else {
        match quorum_state_check(program_id, authority, quorum, falcon_auth_program, falcon_key, d) {
            Err(e) => Err(e),
            Ok(_) => if d[10] != cluster {
                Err(PqQuorumAuthError::ClusterMismatch)
            } else if quorum_nonce(d) != nonce {
                Err(PqQuorumAuthError::NonceMismatch)
            } else {
                Ok(())
            },
        }
    }
}

/// Runs the pre-signature checks of a verifying instruction at slot `slot`.
pub fn validate_verify_state(program_id: &[u8; 32], authority: &[u8; 32], quorum: &[u8; 32], falcon_auth_program: &[u8; 32], falcon_key: &[u8; 32],
    data: &[u8], cluster: u8, nonce: u64, expires_slot: u64, slot: u64) -> (res: Result<QuorumState, PqQuorumAuthError>)
    ensures
        match res {
            Ok(s) => verify_state_check(program_id@, authority@, quorum@, falcon_auth_program@, falcon_key@, data@, cluster, nonce, expires_slot, slot) is Ok
                && s.winternitz_root@ == quorum_root(data@) && s.next_nonce == nonce && s.cluster == cluster,
            Err(e) => verify_state_check(program_id@, authority@, quorum@, falcon_auth_program@, falcon_key@, data@, cluster, nonce, expires_slot, slot) == Err::<(), PqQuorumAuthError>(e),
        },
{
    if slot > expires_slot {
        return Err(PqQuorumAuthError::ExpiredAction);
    }
    let state = validate_quorum_state(program_id, authority, quorum, falcon_auth_program, falcon_key, data)?;
    if state.cluster != cluster {
        return Err(PqQuorumAuthError::ClusterMismatch);
    }
    if state.next_nonce != nonce {
        return Err(PqQuorumAuthError::NonceMismatch);
    }
    Ok(state)
}

/// A quorum account that was just written passes the quorum checks, holds the nonce and
/// root it was written with, and a verifying instruction at the stored nonce passes the
/// pre-signature checks; one with another nonce is refused with `NonceMismatch`.
pub proof fn law_quorum_roundtrip(program_id: Seq<u8>, authority: Seq<u8>, quorum: Seq<u8>, falcon_auth_program: Seq<u8>, falcon_key: Seq<u8>,
    bump: u8, cluster: u8, root: Seq<u8>, next_nonce: u64, other_nonce: u64, expires_slot: u64, slot: u64)
    requires
        authority.len() == 32,
        falcon_auth_program.len() == 32,
        falcon_key.len() == 32,
        root.len() == 32,
        pda_check(quorum_seeds(authority, falcon_auth_program), program_id, quorum, bump) is Ok,
        falcon_key_pda_check(falcon_auth_program, authority, falcon_key) is Ok,
        slot <= expires_slot,
        other_nonce != next_nonce,
    ensures
        ({
            let d = quorum_account(bump, cluster, authority, falcon_auth_program, falcon_key, root, next_nonce);
            &&& quorum_state_check(program_id, authority, quorum, falcon_auth_program, falcon_key, d) is Ok
            &&& quorum_nonce(d) == next_nonce
            &&& quorum_root(d) == root
            &&& verify_state_check(program_id, authority, quorum, falcon_auth_program, falcon_key, d, cluster, next_nonce, expires_slot, slot) is Ok
            &&& verify_state_check(program_id, authority, quorum, falcon_auth_program, falcon_key, d, cluster, other_nonce, expires_slot, slot)
                == Err::<(), PqQuorumAuthError>(PqQuorumAuthError::NonceMismatch)
        }),
{
    lemma_auto_spec_u64_to_from_le_bytes();
    let d = quorum_account(bump, cluster, authority, falcon_auth_program, falcon_key, root, next_nonce);
    assert(d.subrange(0, 8) =~= QUORUM_DISCRIMINATOR@);
    assert(d.subrange(12, 44) =~= authority);
    assert(d.subrange(44, 76) =~= falcon_auth_program);
    assert(d.subrange(76, 108) =~= falcon_key);
    assert(d.subrange(108, 140) =~= root);
    assert(d.subrange(140, 148) =~= spec_u64_to_le_bytes(next_nonce));
}

/// An approval's state checks pass only for an unexpired action whose cluster byte is the
/// cluster the quorum was registered with (byte 10) and whose nonce is the quorum's next
/// nonce; for a well-formed quorum account at an unexpired slot, any other cluster is refused
/// as a cluster mismatch.
pub proof fn law_verify_state_binds_cluster_and_nonce(program_id: Seq<u8>, authority: Seq<u8>, quorum: Seq<u8>, falcon_auth_program: Seq<u8>,
    falcon_key: Seq<u8>, d: Seq<u8>, cluster: u8, nonce: u64, expires_slot: u64, slot: u64)
    ensures
        verify_state_check(program_id, authority, quorum, falcon_auth_program, falcon_key, d, cluster, nonce, expires_slot, slot) is Ok ==> {
            &&& quorum_state_check(program_id, authority, quorum, falcon_auth_program, falcon_key, d) is Ok
            &&& d.len() == QUORUM_ACCOUNT_LEN
            &&& d[10] == cluster
            &&& quorum_nonce(d) == nonce
            &&& slot <= expires_slot
        },
        slot <= expires_slot && quorum_state_check(program_id, authority, quorum, falcon_auth_program, falcon_key, d) is Ok && d[10] != cluster
            ==> verify_state_check(program_id, authority, quorum, falcon_auth_program, falcon_key, d, cluster, nonce, expires_slot, slot)
                == Err::<(), PqQuorumAuthError>(PqQuorumAuthError::ClusterMismatch),
        forall|other: u8| other != cluster && verify_state_check(program_id, authority, quorum, falcon_auth_program, falcon_key, d, cluster, nonce,
            expires_slot, slot) is Ok ==> #[trigger] verify_state_check(program_id, authority, quorum, falcon_auth_program, falcon_key, d, other,
            nonce, expires_slot, slot) == Err::<(), PqQuorumAuthError>(PqQuorumAuthError::ClusterMismatch),
{
}

/// A quorum account passes the quorum checks only when it is a version-1 quorum account
/// (148 bytes, discriminator, reserved byte zero) that stores the instruction's authority,
/// Falcon program and Falcon key, sits at the quorum address of that authority and program
/// under its stored bump, and the Falcon key is the Falcon key address of the authority.
pub proof fn law_quorum_state_requirements(program_id: Seq<u8>, authority: Seq<u8>, quorum: Seq<u8>, falcon_auth_program: Seq<u8>,
    falcon_key: Seq<u8>, d: Seq<u8>)
    ensures
        quorum_state_check(program_id, authority, quorum, falcon_auth_program, falcon_key, d) is Ok ==> {
            &&& d.len() == QUORUM_ACCOUNT_LEN
            &&& d.subrange(0, 8) == QUORUM_DISCRIMINATOR@
            &&& d[8] == VERSION
            &&& d[11] == 0
            &&& d.subrange(12, 44) == authority
            &&& d.subrange(44, 76) == falcon_auth_program
            &&& d.subrange(76, 108) == falcon_key
            &&& pda_check(quorum_seeds(authority, falcon_auth_program), program_id, quorum, d[9]) is Ok
            &&& falcon_key_pda_check(falcon_auth_program, authority, falcon_key) is Ok
        },
        d.len() == QUORUM_ACCOUNT_LEN && d.subrange(0, 8) == QUORUM_DISCRIMINATOR@ && d[8] == VERSION && d[11] == 0
            && d.subrange(12, 44) == authority && d.subrange(44, 76) != falcon_auth_program
            ==> quorum_state_check(program_id, authority, quorum, falcon_auth_program, falcon_key, d)
                == Err::<(), PqQuorumAuthError>(PqQuorumAuthError::InvalidFalconAuthProgram),
{
}

} // verus!
