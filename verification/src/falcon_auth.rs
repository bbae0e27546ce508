//! Falcon-512 authorization: one prepared Falcon key per authority in a PDA, a monotonic
//! nonce against replay, chunked key uploads, rotation and closing.
use vstd::prelude::*;
use vstd::bytes::{spec_u64_from_le_bytes, spec_u64_to_le_bytes, spec_u16_from_le_bytes, spec_u16_to_le_bytes, u64_to_le_bytes, lemma_auto_spec_u64_to_from_le_bytes, lemma_auto_spec_u16_to_from_le_bytes};
use crate::digest::{find_program_address, falcon512_verify, spec_find_program_address, spec_falcon512_verify, seeds_view};
use crate::runtime::{
    AccountHeader, ProgramFailure, keys_eq, bytes_eq, is_system_program, system_program_id,
    read_u64, read_u16, write_bytes, fill_bytes, spliced,
};

verus! {

pub const TAG_REGISTER_KEY: u8 = 0;
pub const TAG_VERIFY_ACTION: u8 = 1;
pub const TAG_ROTATE_KEY: u8 = 2;
pub const TAG_CLOSE_KEY: u8 = 3;
pub const TAG_WRITE_KEY_CHUNK: u8 = 4;
pub const TAG_FINALIZE_KEY: u8 = 5;
pub const VERSION: u8 = 2;
/// `b"falcon-key"`
pub const FALCON_KEY_SEED: [u8; 10] = [102, 97, 108, 99, 111, 110, 45, 107, 101, 121];
/// `b"FALKYA02"`
pub const FALCON_KEY_DISCRIMINATOR: [u8; 8] = [70, 65, 76, 75, 89, 65, 48, 50];
pub const CLOSED_DISCRIMINATOR: [u8; 8] = [255, 255, 255, 255, 255, 255, 255, 255];
/// `b"SOL_FALCON_ACT1!"`
pub const FALCON_ACTION_MAGIC: [u8; 16] = [83, 79, 76, 95, 70, 65, 76, 67, 79, 78, 95, 65, 67, 84, 49, 33];
pub const PENDING_NONCE: u64 = 0xffff_ffff_ffff_ffff;

pub const VERSION_OFFSET: usize = 8;
pub const BUMP_OFFSET: usize = 9;
pub const CLUSTER_OFFSET: usize = 10;
pub const RESERVED_OFFSET: usize = 11;
pub const AUTHORITY_OFFSET: usize = 12;
pub const NEXT_NONCE_OFFSET: usize = 44;
pub const PREPARED_PUBKEY_OFFSET: usize = 52;
pub const FALCON_PREPARED_PUBKEY_LEN: usize = 1024;
pub const FALCON_SIGNATURE_LEN: usize = 666;
pub const FALCON_KEY_ACCOUNT_LEN: usize = 1076;
pub const FALCON_ACTION_PAYLOAD_LEN: usize = 193;
/// Instruction bytes after the tag: cluster, nonce, expiry slot, domain, hash, signature.
pub const VERIFY_ACTION_DATA_LEN: usize = 747;
pub const FALCON_Q: u16 = 12_289;

/// Errors of the Falcon authorization program.
#[derive(Clone, Copy, PartialEq, Eq, Structural, Debug)]
pub enum FalconAuthError {
    InvalidInstructionData,
    InvalidPda,
    InvalidAccountOwner,
    AccountAlreadyInitialized,
    InvalidAccountData,
    InvalidFalconPubkey,
    InvalidFalconSignature,
    NonceMismatch,
    ExpiredAction,
    ArithmeticOverflow,
    AccountClosed,
    ClusterMismatch,
}

impl FalconAuthError {
    pub open spec fn spec_code(self) -> u32 {
        match self {
            FalconAuthError::InvalidInstructionData => 1,
            FalconAuthError::InvalidPda => 3,
            FalconAuthError::InvalidAccountOwner => 4,
            FalconAuthError::AccountAlreadyInitialized => 5,
            FalconAuthError::InvalidAccountData => 6,
            FalconAuthError::InvalidFalconPubkey => 7,
            FalconAuthError::InvalidFalconSignature => 8,
            FalconAuthError::NonceMismatch => 9,
            FalconAuthError::ExpiredAction => 10,
            FalconAuthError::ArithmeticOverflow => 11,
            FalconAuthError::AccountClosed => 12,
            FalconAuthError::ClusterMismatch => 13,
        }
    }

    /// The custom error code the program answers with.
    pub fn code(&self) -> (c: u32)
        ensures
            c == self.spec_code(),
    {
        match self {
            FalconAuthError::InvalidInstructionData => 1,
            FalconAuthError::InvalidPda => 3,
            FalconAuthError::InvalidAccountOwner => 4,
            FalconAuthError::AccountAlreadyInitialized => 5,
            FalconAuthError::InvalidAccountData => 6,
            FalconAuthError::InvalidFalconPubkey => 7,
            FalconAuthError::InvalidFalconSignature => 8,
            FalconAuthError::NonceMismatch => 9,
            FalconAuthError::ExpiredAction => 10,
            FalconAuthError::ArithmeticOverflow => 11,
            FalconAuthError::AccountClosed => 12,
            FalconAuthError::ClusterMismatch => 13,
        }
    }

    /// The runtime error carrying this code.
    pub fn into_failure(self) -> (f: ProgramFailure)
        ensures
            f == ProgramFailure::Custom(self.spec_code()),
    {
        ProgramFailure::Custom(self.code())
    }
}

pub open spec fn fail(e: FalconAuthError) -> ProgramFailure {
    ProgramFailure::Custom(e.spec_code())
}

// ---------------------------------------------------------------------------------------
// The key account.

/// Stored next nonce.
pub open spec fn stored_nonce(d: Seq<u8>) -> u64 {
    spec_u64_from_le_bytes(d.subrange(44, 52))
}

/// Stored prepared Falcon public key.
pub open spec fn stored_prepared(d: Seq<u8>) -> Seq<u8> {
    d.subrange(52, 1076)
}

/// The canonical key PDA of `authority`: address and bump.
pub open spec fn key_pda(authority: Seq<u8>, program_id: Seq<u8>) -> Option<(Seq<u8>, u8)> {
    spec_find_program_address(seq![FALCON_KEY_SEED@, authority], program_id)
}

/// The checks of a key account that belongs to `authority` and sits at its canonical PDA.
pub open spec fn key_account_check(program_id: Seq<u8>, authority: Seq<u8>, falcon_key: Seq<u8>, d: Seq<u8>) -> Result<(), FalconAuthError> {
    if d.len() != FALCON_KEY_ACCOUNT_LEN {
        Err(FalconAuthError::InvalidAccountData)
    } else if d.subrange(0, 8) != FALCON_KEY_DISCRIMINATOR@ {
        if d.subrange(0, 8) == CLOSED_DISCRIMINATOR@ {
            Err(FalconAuthError::AccountClosed)
        } else {
            Err(FalconAuthError::InvalidAccountData)
        }
    } else if d[8] != VERSION {
        Err(FalconAuthError::InvalidAccountData)
    } else if d.subrange(12, 44) != authority {
        Err(FalconAuthError::InvalidAccountData)
    } else {
        match key_pda(authority, program_id) {
            None => Err(FalconAuthError::InvalidPda),
            Some((k, b)) => if k != falcon_key || b != d[9] { Err(FalconAuthError::InvalidPda) } else { Ok(()) },
        }
    }
}

/// The account a registration writes: header, pending nonce, and a placeholder key of
/// `0xff` bytes.
pub open spec fn pending_key_account(bump: u8, cluster: u8, authority: Seq<u8>) -> Seq<u8> {
    FALCON_KEY_DISCRIMINATOR@ + seq![VERSION, bump, cluster, 0u8] + authority
        + spec_u64_to_le_bytes(PENDING_NONCE) + Seq::new(1024, |i: int| 255u8)
}

/// The canonical key PDA of `authority`.
pub fn derive_key_pda(authority: &[u8; 32], program_id: &[u8; 32]) -> (res: Option<([u8; 32], u8)>)
    ensures
        match res {
            Some((k, b)) => key_pda(authority@, program_id@) == Some((k@, b)),
            None => key_pda(authority@, program_id@) is None,
        },
{
    let seeds: [&[u8]; 2] = [FALCON_KEY_SEED.as_slice(), authority.as_slice()];
    proof {
        assert(seeds_view(seeds@) =~= seq![FALCON_KEY_SEED@, authority@]);
    }
    find_program_address(&seeds, program_id)
}

/// Checks that `data` is a live key account of `authority` at its canonical PDA.
pub fn validate_falcon_key_account(program_id: &[u8; 32], authority: &[u8; 32], falcon_key: &[u8; 32], data: &[u8]) -> (res: Result<(), FalconAuthError>)
    ensures
        res == key_account_check(program_id@, authority@, falcon_key@, data@),
{
    if data.len() != FALCON_KEY_ACCOUNT_LEN {
        return Err(FalconAuthError::InvalidAccountData);
    }
    let disc = &data[0..8];
    if !bytes_eq(disc, FALCON_KEY_DISCRIMINATOR.as_slice()) {
        if bytes_eq(disc, CLOSED_DISCRIMINATOR.as_slice()) {
            return Err(FalconAuthError::AccountClosed);
        }
        return Err(FalconAuthError::InvalidAccountData);
    }
    if data[VERSION_OFFSET] != VERSION {
        return Err(FalconAuthError::InvalidAccountData);
    }
    if !bytes_eq(&data[12..44], authority.as_slice()) {
        return Err(FalconAuthError::InvalidAccountData);
    }
    let stored_bump = data[BUMP_OFFSET];
    match derive_key_pda(authority, program_id) {
        None => Err(FalconAuthError::InvalidPda),
        Some((expected_key, canonical_bump)) => {
            if !keys_eq(&expected_key, falcon_key) || canonical_bump != stored_bump {
                Err(FalconAuthError::InvalidPda)
            } else {
                Ok(())
            }
        },
    }
}

/// Writes a fresh key account in the pending state.
pub fn write_pending_falcon_key_account(account_data: &mut [u8], bump: u8, cluster: u8, authority: &[u8]) -> (res: Result<(), ProgramFailure>)
    ensures
        res is Ok <==> (old(account_data)@.len() == FALCON_KEY_ACCOUNT_LEN && authority@.len() == 32),
        res is Err ==> res == Err::<(), ProgramFailure>(ProgramFailure::AccountDataTooSmall) && final(account_data)@ == old(account_data)@,
        res is Ok ==> final(account_data)@ == pending_key_account(bump, cluster, authority@),
{
    if account_data.len() != FALCON_KEY_ACCOUNT_LEN || authority.len() != 32 {
        return Err(ProgramFailure::AccountDataTooSmall);
    }
    write_bytes(account_data, 0, FALCON_KEY_DISCRIMINATOR.as_slice());
    account_data[VERSION_OFFSET] = VERSION;
    account_data[BUMP_OFFSET] = bump;
    account_data[CLUSTER_OFFSET] = cluster;
    account_data[RESERVED_OFFSET] = 0;
    write_bytes(account_data, AUTHORITY_OFFSET, authority);
    let nonce_bytes = u64_to_le_bytes(PENDING_NONCE);
    write_bytes(account_data, NEXT_NONCE_OFFSET, nonce_bytes.as_slice());
    fill_bytes(account_data, PREPARED_PUBKEY_OFFSET, FALCON_PREPARED_PUBKEY_LEN, 0xff);
    proof {
        assert(account_data@ =~= pending_key_account(bump, cluster, authority@));
    }
    Ok(())
}

/// Every little-endian 16-bit coefficient is below the Falcon modulus.
pub open spec fn spec_valid_prepared_pubkey(b: Seq<u8>) -> bool {
    &&& b.len() == FALCON_PREPARED_PUBKEY_LEN
    &&& forall|i: int| 0 <= i < 512 ==> #[trigger] spec_u16_from_le_bytes(b.subrange(2 * i, 2 * i + 2)) < FALCON_Q
}

/// Whether `bytes` is a prepared Falcon key: 512 coefficients below `q = 12289`.
pub fn is_valid_prepared_pubkey(bytes: &[u8]) -> (ok: bool)
    ensures
        ok == spec_valid_prepared_pubkey(bytes@),
{
    if bytes.len() != FALCON_PREPARED_PUBKEY_LEN {
        return false;
    }
    let mut i: usize = 0;
    while i < 512
        invariant
            bytes@.len() == 1024,
            i <= 512,
            forall|j: int| 0 <= j < i ==> #[trigger] spec_u16_from_le_bytes(bytes@.subrange(2 * j, 2 * j + 2)) < FALCON_Q,
        decreases 512 - i,
    {
        let coeff = read_u16(bytes, 2 * i);
        match coeff {
            Some(c) => {
                if c >= FALCON_Q {
                    return false;
                }
            },
            None => {
                return false;
            },
        }
        i += 1;
    }
    true
}

// ---------------------------------------------------------------------------------------
// The signed payload.

/// `FalconActionV1`: magic, cluster, program, authority, key account, nonce, expiry slot,
/// action domain, action hash.
pub open spec fn action_payload(cluster: u8, program_id: Seq<u8>, authority: Seq<u8>, falcon_key: Seq<u8>, nonce: u64,
    expires_slot: u64, action_domain: Seq<u8>, action_hash: Seq<u8>) -> Seq<u8> {
    FALCON_ACTION_MAGIC@ + seq![cluster] + program_id + authority + falcon_key + spec_u64_to_le_bytes(nonce)
        + spec_u64_to_le_bytes(expires_slot) + action_domain + action_hash
}

/// Builds the 193-byte payload that the Falcon signature covers.
pub fn build_action_payload(cluster: u8, program_id: &[u8], authority: &[u8], falcon_key: &[u8], nonce: u64,
    expires_slot: u64, action_domain: &[u8], action_hash: &[u8]) -> (out: Vec<u8>)
    ensures
        out@ == action_payload(cluster, program_id@, authority@, falcon_key@, nonce, expires_slot, action_domain@, action_hash@),
{
    let mut out: Vec<u8> = Vec::new();
    crate::mldsa44::protocol::append_bytes(&mut out, FALCON_ACTION_MAGIC.as_slice());
    out.push(cluster);
    crate::mldsa44::protocol::append_bytes(&mut out, program_id);
    crate::mldsa44::protocol::append_bytes(&mut out, authority);
    crate::mldsa44::protocol::append_bytes(&mut out, falcon_key);
    let n = u64_to_le_bytes(nonce);
    crate::mldsa44::protocol::append_bytes(&mut out, n.as_slice());
    let e = u64_to_le_bytes(expires_slot);
    crate::mldsa44::protocol::append_bytes(&mut out, e.as_slice());
    crate::mldsa44::protocol::append_bytes(&mut out, action_domain);
    crate::mldsa44::protocol::append_bytes(&mut out, action_hash);
    proof {
        assert(out@ =~= action_payload(cluster, program_id@, authority@, falcon_key@, nonce, expires_slot, action_domain@, action_hash@));
    }
    out
}

// ---------------------------------------------------------------------------------------
// Instructions.

/// `d` with the stored nonce replaced by `v`.
pub open spec fn with_nonce(d: Seq<u8>, v: u64) -> Seq<u8> {
    spliced(d, 44, spec_u64_to_le_bytes(v))
}

/// The signer, writability, distinctness and ownership checks shared by the authority's
/// instructions.
pub open spec fn authority_checks(program_id: Seq<u8>, authority: AccountHeader, key: AccountHeader) -> Result<(), ProgramFailure> {
    if !authority.is_signer {
        Err(ProgramFailure::MissingRequiredSignature)
    } else if !authority.is_writable || !key.is_writable {
        Err(ProgramFailure::InvalidAccountData)
    } else if authority.key@ == key.key@ {
        Err(ProgramFailure::InvalidArgument)
    } else if key.owner@ != program_id {
        Err(fail(FalconAuthError::InvalidAccountOwner))
    } else {
        Ok(())
    }
}

fn check_authority_accounts(program_id: &[u8; 32], authority: &AccountHeader, key: &AccountHeader) -> (res: Result<(), ProgramFailure>)
    ensures
        res == authority_checks(program_id@, *authority, *key),
{
    if !authority.is_signer {
        return Err(ProgramFailure::MissingRequiredSignature);
    }
    if !authority.is_writable || !key.is_writable {
        return Err(ProgramFailure::InvalidAccountData);
    }
    if keys_eq(&authority.key, &key.key) {
        return Err(ProgramFailure::InvalidArgument);
    }
    if !keys_eq(&key.owner, program_id) {
        return Err(FalconAuthError::InvalidAccountOwner.into_failure());
    }
    Ok(())
}

/// Key-account check mapped to the runtime error.
pub open spec fn key_check_failure(program_id: Seq<u8>, authority: Seq<u8>, falcon_key: Seq<u8>, d: Seq<u8>) -> Result<(), ProgramFailure> {
    match key_account_check(program_id, authority, falcon_key, d) {
        Ok(_) => Ok(()),
        Err(e) => Err(fail(e)),
    }
}

fn check_key_account(program_id: &[u8; 32], authority: &[u8; 32], falcon_key: &[u8; 32], data: &[u8]) -> (res: Result<(), ProgramFailure>)
    ensures
        res == key_check_failure(program_id@, authority@, falcon_key@, data@),
{
    match validate_falcon_key_account(program_id, authority, falcon_key, data) {
        Ok(_) => Ok(()),
        Err(e) => Err(e.into_failure()),
    }
}

/// What a registration needs the runtime to do: create the PDA, then write it with these.
#[derive(Clone, Copy, PartialEq, Eq, Structural, Debug)]
pub struct RegisterKeyPlan {
    pub bump: u8,
    pub cluster: u8,
}

/// Outcome of the checks of `register_key` (accounts: authority, key PDA, system program).
pub open spec fn register_key_outcome(program_id: Seq<u8>, accounts: Seq<AccountHeader>, d: Seq<u8>, data: Seq<u8>) -> Result<RegisterKeyPlan, ProgramFailure> {
    if data.len() != 2 {
        Err(fail(FalconAuthError::InvalidInstructionData))
    } else if accounts.len() < 3 {
        Err(ProgramFailure::NotEnoughAccountKeys)
    } else {
        let authority = accounts[0];
        let key = accounts[1];
        let bump = data[0];
        if !authority.is_signer {
            Err(ProgramFailure::MissingRequiredSignature)
        } else if !authority.is_writable || !key.is_writable {
            Err(ProgramFailure::InvalidAccountData)
        } else if accounts[2].key@ != system_program_id() {
            Err(ProgramFailure::IncorrectProgramId)
        } else if key.key@ == authority.key@ {
            Err(ProgramFailure::InvalidArgument)
        } else {
            match key_pda(authority.key@, program_id) {
                None => Err(fail(FalconAuthError::InvalidPda)),
                Some((k, b)) => if k != key.key@ || b != bump {
                    Err(fail(FalconAuthError::InvalidPda))
                } else if key.owner@ == program_id {
                    if d.len() >= 8 && d.subrange(0, 8) == FALCON_KEY_DISCRIMINATOR@ {
                        Err(fail(FalconAuthError::AccountAlreadyInitialized))
                    } else {
                        Err(fail(FalconAuthError::InvalidAccountOwner))
                    }
                } else if key.owner@ != system_program_id() || d.len() != 0 {
                    Err(fail(FalconAuthError::AccountAlreadyInitialized))
                } else {
                    Ok(RegisterKeyPlan { bump, cluster: data[1] })
                },
            }
        }
    }
}

/// Checks a registration (`data` = bump, cluster). On success the runtime creates the
/// account and `write_pending_falcon_key_account` fills it.
pub fn plan_register_key(program_id: &[u8; 32], accounts: &[AccountHeader], key_data: &[u8], data: &[u8]) -> (res: Result<RegisterKeyPlan, ProgramFailure>)
    ensures
        res == register_key_outcome(program_id@, accounts@, key_data@, data@),
{
    if data.len() != 2 {
        return Err(FalconAuthError::InvalidInstructionData.into_failure());
    }
    if accounts.len() < 3 {
        return Err(ProgramFailure::NotEnoughAccountKeys);
    }
    let authority = accounts[0];
    let key = accounts[1];
    let system = accounts[2];
    let bump = data[0];
    if !authority.is_signer {
        return Err(ProgramFailure::MissingRequiredSignature);
    }
    if !authority.is_writable || !key.is_writable {
        return Err(ProgramFailure::InvalidAccountData);
    }
    if !is_system_program(&system.key) {
        return Err(ProgramFailure::IncorrectProgramId);
    }
    if keys_eq(&key.key, &authority.key) {
        return Err(ProgramFailure::InvalidArgument);
    }
    match derive_key_pda(&authority.key, program_id) {
        None => Err(FalconAuthError::InvalidPda.into_failure()),
        Some((expected, canonical)) => {
            if !keys_eq(&expected, &key.key) || canonical != bump {
                return Err(FalconAuthError::InvalidPda.into_failure());
            }
            if keys_eq(&key.owner, program_id) {
                if key_data.len() >= 8 && bytes_eq(&key_data[0..8], FALCON_KEY_DISCRIMINATOR.as_slice()) {
                    return Err(FalconAuthError::AccountAlreadyInitialized.into_failure());
                }
                return Err(FalconAuthError::InvalidAccountOwner.into_failure());
            }
            if !is_system_program(&key.owner) || key_data.len() != 0 {
                return Err(FalconAuthError::AccountAlreadyInitialized.into_failure());
            }
            Ok(RegisterKeyPlan { bump, cluster: data[1] })
        },
    }
}

/// The fields of a `verify_action` instruction.
pub open spec fn ix_cluster(data: Seq<u8>) -> u8 { data[0] }
pub open spec fn ix_nonce(data: Seq<u8>) -> u64 { spec_u64_from_le_bytes(data.subrange(1, 9)) }
pub open spec fn ix_expires(data: Seq<u8>) -> u64 { spec_u64_from_le_bytes(data.subrange(9, 17)) }
pub open spec fn ix_domain(data: Seq<u8>) -> Seq<u8> { data.subrange(17, 49) }
pub open spec fn ix_hash(data: Seq<u8>) -> Seq<u8> { data.subrange(49, 81) }
pub open spec fn ix_signature(data: Seq<u8>) -> Seq<u8> { data.subrange(81, 747) }

/// Outcome of `verify_action` (accounts: authority, key PDA) on key account data `d` at
/// slot `slot`.
pub open spec fn verify_action_outcome(program_id: Seq<u8>, accounts: Seq<AccountHeader>, d: Seq<u8>, data: Seq<u8>, slot: u64) -> Result<(), ProgramFailure> {
    if data.len() != VERIFY_ACTION_DATA_LEN {
        Err(fail(FalconAuthError::InvalidInstructionData))
    } else if accounts.len() < 2 {
        Err(ProgramFailure::NotEnoughAccountKeys)
    } else {
        let authority = accounts[0];
        let key = accounts[1];
        if !key.is_writable {
            Err(ProgramFailure::InvalidAccountData)
        } else if key.owner@ != program_id {
            Err(fail(FalconAuthError::InvalidAccountOwner))
        } else if authority.key@ == key.key@ {
            Err(ProgramFailure::InvalidArgument)
        } else {
            match key_account_check(program_id, authority.key@, key.key@, d) {
                Err(e) => Err(fail(e)),
                Ok(_) => if d[10] != ix_cluster(data) {
                    Err(fail(FalconAuthError::ClusterMismatch))
                } else if stored_nonce(d) == PENDING_NONCE {
                    Err(fail(FalconAuthError::InvalidAccountData))
                } else if ix_nonce(data) != stored_nonce(d) {
                    Err(fail(FalconAuthError::NonceMismatch))
                } else if slot > ix_expires(data) {
                    Err(fail(FalconAuthError::ExpiredAction))
                } else if !spec_falcon512_verify(ix_signature(data),
                    action_payload(ix_cluster(data), program_id, authority.key@, key.key@, ix_nonce(data), ix_expires(data), ix_domain(data), ix_hash(data)),
                    stored_prepared(d)) {
                    Err(fail(FalconAuthError::InvalidFalconSignature))
                } else {
                    Ok(())
                },
            }
        }
    }
}

/// Verifies a Falcon-signed action and advances the nonce by one.
pub fn process_verify_action(program_id: &[u8; 32], accounts: &[AccountHeader], key_data: &mut [u8], data: &[u8], slot: u64) -> (res: Result<(), ProgramFailure>)
    ensures
        res == verify_action_outcome(program_id@, accounts@, old(key_data)@, data@, slot),
        res is Ok ==> final(key_data)@ == with_nonce(old(key_data)@, (stored_nonce(old(key_data)@) + 1) as u64),
        res is Err ==> final(key_data)@ == old(key_data)@,
{
    if data.len() != VERIFY_ACTION_DATA_LEN {
        return Err(FalconAuthError::InvalidInstructionData.into_failure());
    }
    if accounts.len() < 2 {
        return Err(ProgramFailure::NotEnoughAccountKeys);
    }
    let authority = accounts[0];
    let key = accounts[1];
    if !key.is_writable {
        return Err(ProgramFailure::InvalidAccountData);
    }
    if !keys_eq(&key.owner, program_id) {
        return Err(FalconAuthError::InvalidAccountOwner.into_failure());
    }
    if keys_eq(&authority.key, &key.key) {
        return Err(ProgramFailure::InvalidArgument);
    }
    let cluster = data[0];
    let nonce = match read_u64(data, 1) { Some(v) => v, None => { return Err(FalconAuthError::InvalidInstructionData.into_failure()); } };
    let expires_slot = match read_u64(data, 9) { Some(v) => v, None => { return Err(FalconAuthError::InvalidInstructionData.into_failure()); } };
    let action_domain = &data[17..49];
    let action_hash = &data[49..81];
    let signature = &data[81..747];
    check_key_account(program_id, &authority.key, &key.key, key_data)?;
    if key_data[CLUSTER_OFFSET] != cluster {
        return Err(FalconAuthError::ClusterMismatch.into_failure());
    }
    let stored = match read_u64(key_data, NEXT_NONCE_OFFSET) { Some(v) => v, None => { return Err(FalconAuthError::InvalidInstructionData.into_failure()); } };
    if stored == PENDING_NONCE {
        return Err(FalconAuthError::InvalidAccountData.into_failure());
    }
    if nonce != stored {
        return Err(FalconAuthError::NonceMismatch.into_failure());
    }
    if slot > expires_slot {
        return Err(FalconAuthError::ExpiredAction.into_failure());
    }
    let payload = build_action_payload(cluster, program_id.as_slice(), authority.key.as_slice(), key.key.as_slice(), nonce, expires_slot, action_domain, action_hash);
    if !falcon512_verify(signature, payload.as_slice(), &key_data[52..1076]) {
        return Err(FalconAuthError::InvalidFalconSignature.into_failure());
    }
    let next_nonce = nonce + 1;
    let bytes = u64_to_le_bytes(next_nonce);
    write_bytes(key_data, NEXT_NONCE_OFFSET, bytes.as_slice());
    Ok(())
}

/// Outcome of `write_key_chunk` (`data` = little-endian `u16` offset, then the chunk).
pub open spec fn write_key_chunk_outcome(program_id: Seq<u8>, accounts: Seq<AccountHeader>, d: Seq<u8>, data: Seq<u8>) -> Result<(), ProgramFailure> {
    if data.len() < 4 {
        Err(fail(FalconAuthError::InvalidInstructionData))
    } else if accounts.len() < 2 {
        Err(ProgramFailure::NotEnoughAccountKeys)
    } else {
        match authority_checks(program_id, accounts[0], accounts[1]) {
            Err(e) => Err(e),
            Ok(_) => {
                let offset = spec_u16_from_le_bytes(data.subrange(0, 2)) as int;
                let len = data.len() - 2;
                if offset + len > usize::MAX {
                    Err(fail(FalconAuthError::ArithmeticOverflow))
                } else if offset % 2 != 0 || len % 2 != 0 || offset + len > FALCON_PREPARED_PUBKEY_LEN {
                    Err(fail(FalconAuthError::InvalidInstructionData))
                } else {
                    match key_check_failure(program_id, accounts[0].key@, accounts[1].key@, d) {
                        Err(e) => Err(e),
                        Ok(_) => if stored_nonce(d) != PENDING_NONCE { Err(fail(FalconAuthError::InvalidAccountData)) } else { Ok(()) },
                    }
                }
            },
        }
    }
}

/// Writes part of the prepared key into a pending key account.
pub fn process_write_key_chunk(program_id: &[u8; 32], accounts: &[AccountHeader], key_data: &mut [u8], data: &[u8]) -> (res: Result<(), ProgramFailure>)
    ensures
        res == write_key_chunk_outcome(program_id@, accounts@, old(key_data)@, data@),
        res is Ok ==> final(key_data)@ == spliced(old(key_data)@, 52 + spec_u16_from_le_bytes(data@.subrange(0, 2)), data@.subrange(2, data@.len() as int)),
        res is Err ==> final(key_data)@ == old(key_data)@,
{
    if data.len() < 4 {
        return Err(FalconAuthError::InvalidInstructionData.into_failure());
    }
    if accounts.len() < 2 {
        return Err(ProgramFailure::NotEnoughAccountKeys);
    }
    let authority = accounts[0];
    let key = accounts[1];
    check_authority_accounts(program_id, &authority, &key)?;
    let offset = match read_u16(data, 0) { Some(v) => v as usize, None => { return Err(FalconAuthError::InvalidInstructionData.into_failure()); } };
    let chunk = &data[2..data.len()];
    let end = match offset.checked_add(chunk.len()) {
        Some(e) => e,
        None => { return Err(FalconAuthError::ArithmeticOverflow.into_failure()); },
    };
    if offset % 2 != 0 || chunk.len() % 2 != 0 || end > FALCON_PREPARED_PUBKEY_LEN {
        return Err(FalconAuthError::InvalidInstructionData.into_failure());
    }
    check_key_account(program_id, &authority.key, &key.key, key_data)?;
    let stored = match read_u64(key_data, NEXT_NONCE_OFFSET) { Some(v) => v, None => { return Err(FalconAuthError::InvalidInstructionData.into_failure()); } };
    if stored != PENDING_NONCE {
        return Err(FalconAuthError::InvalidAccountData.into_failure());
    }
    write_bytes(key_data, PREPARED_PUBKEY_OFFSET + offset, chunk);
    Ok(())
}

/// Outcome of `finalize_key`.
pub open spec fn finalize_key_outcome(program_id: Seq<u8>, accounts: Seq<AccountHeader>, d: Seq<u8>, data: Seq<u8>) -> Result<(), ProgramFailure> {
    if data.len() != 0 {
        Err(fail(FalconAuthError::InvalidInstructionData))
    } else if accounts.len() < 2 {
        Err(ProgramFailure::NotEnoughAccountKeys)
    } else {
        match authority_checks(program_id, accounts[0], accounts[1]) {
            Err(e) => Err(e),
            Ok(_) => match key_check_failure(program_id, accounts[0].key@, accounts[1].key@, d) {
                Err(e) => Err(e),
                Ok(_) => if stored_nonce(d) != PENDING_NONCE {
                    Err(fail(FalconAuthError::InvalidAccountData))
                } else if !spec_valid_prepared_pubkey(stored_prepared(d)) {
                    Err(fail(FalconAuthError::InvalidFalconPubkey))
                } else {
                    Ok(())
                },
            },
        }
    }
}

/// Activates a pending key account whose uploaded key is well formed (nonce becomes 0).
pub fn process_finalize_key(program_id: &[u8; 32], accounts: &[AccountHeader], key_data: &mut [u8], data: &[u8]) -> (res: Result<(), ProgramFailure>)
    ensures
        res == finalize_key_outcome(program_id@, accounts@, old(key_data)@, data@),
        res is Ok ==> final(key_data)@ == with_nonce(old(key_data)@, 0),
        res is Err ==> final(key_data)@ == old(key_data)@,
{
    if data.len() != 0 {
        return Err(FalconAuthError::InvalidInstructionData.into_failure());
    }
    if accounts.len() < 2 {
        return Err(ProgramFailure::NotEnoughAccountKeys);
    }
    let authority = accounts[0];
    let key = accounts[1];
    check_authority_accounts(program_id, &authority, &key)?;
    check_key_account(program_id, &authority.key, &key.key, key_data)?;
    let stored = match read_u64(key_data, NEXT_NONCE_OFFSET) { Some(v) => v, None => { return Err(FalconAuthError::InvalidInstructionData.into_failure()); } };
    if stored != PENDING_NONCE {
        return Err(FalconAuthError::InvalidAccountData.into_failure());
    }
    if !is_valid_prepared_pubkey(&key_data[52..1076]) {
        return Err(FalconAuthError::InvalidFalconPubkey.into_failure());
    }
    let bytes = u64_to_le_bytes(0);
    write_bytes(key_data, NEXT_NONCE_OFFSET, bytes.as_slice());
    Ok(())
}

/// `d` reset to the pending state: pending nonce and a placeholder key of `0xff` bytes.
pub open spec fn rotated(d: Seq<u8>) -> Seq<u8> {
    spliced(with_nonce(d, PENDING_NONCE), 52, Seq::new(1024, |i: int| 255u8))
}

/// Outcome of `rotate_key`.
pub open spec fn rotate_key_outcome(program_id: Seq<u8>, accounts: Seq<AccountHeader>, d: Seq<u8>, data: Seq<u8>) -> Result<(), ProgramFailure> {
    if data.len() != 0 {
        Err(fail(FalconAuthError::InvalidInstructionData))
    } else if accounts.len() < 2 {
        Err(ProgramFailure::NotEnoughAccountKeys)
    } else {
        match authority_checks(program_id, accounts[0], accounts[1]) {
            Err(e) => Err(e),
            Ok(_) => match key_check_failure(program_id, accounts[0].key@, accounts[1].key@, d) {
                Err(e) => Err(e),
                Ok(_) => if stored_nonce(d) == PENDING_NONCE { Err(fail(FalconAuthError::InvalidAccountData)) } else { Ok(()) },
            },
        }
    }
}

/// Returns an active key account to the pending state so a new key can be uploaded.
pub fn process_rotate_key(program_id: &[u8; 32], accounts: &[AccountHeader], key_data: &mut [u8], data: &[u8]) -> (res: Result<(), ProgramFailure>)
    ensures
        res == rotate_key_outcome(program_id@, accounts@, old(key_data)@, data@),
        res is Ok ==> final(key_data)@ == rotated(old(key_data)@),
        res is Err ==> final(key_data)@ == old(key_data)@,
{
    if data.len() != 0 {
        return Err(FalconAuthError::InvalidInstructionData.into_failure());
    }
    if accounts.len() < 2 {
        return Err(ProgramFailure::NotEnoughAccountKeys);
    }
    let authority = accounts[0];
    let key = accounts[1];
    check_authority_accounts(program_id, &authority, &key)?;
    check_key_account(program_id, &authority.key, &key.key, key_data)?;
    let stored = match read_u64(key_data, NEXT_NONCE_OFFSET) { Some(v) => v, None => { return Err(FalconAuthError::InvalidInstructionData.into_failure()); } };
    if stored == PENDING_NONCE {
        return Err(FalconAuthError::InvalidAccountData.into_failure());
    }
    let bytes = u64_to_le_bytes(PENDING_NONCE);
    write_bytes(key_data, NEXT_NONCE_OFFSET, bytes.as_slice());
    fill_bytes(key_data, PREPARED_PUBKEY_OFFSET, FALCON_PREPARED_PUBKEY_LEN, 0xff);
    Ok(())
}

/// Outcome of `close_key`: on success, the authority's new lamport balance.
pub open spec fn close_key_outcome(program_id: Seq<u8>, accounts: Seq<AccountHeader>, d: Seq<u8>, data: Seq<u8>) -> Result<u64, ProgramFailure> {
    if data.len() != 0 {
        Err(fail(FalconAuthError::InvalidInstructionData))
    } else if accounts.len() < 2 {
        Err(ProgramFailure::NotEnoughAccountKeys)
    } else {
        match authority_checks(program_id, accounts[0], accounts[1]) {
            Err(e) => Err(e),
            Ok(_) => match key_check_failure(program_id, accounts[0].key@, accounts[1].key@, d) {
                Err(e) => Err(e),
                Ok(_) => if accounts[0].lamports + accounts[1].lamports > u64::MAX {
                    Err(fail(FalconAuthError::ArithmeticOverflow))
                } else {
                    Ok((accounts[0].lamports + accounts[1].lamports) as u64)
                },
            },
        }
    }
}

/// Closes a key account: marks it closed and moves its lamports to the authority (the
/// runtime applies the returned balance and empties the key account).
pub fn process_close_key(program_id: &[u8; 32], accounts: &[AccountHeader], key_data: &mut [u8], data: &[u8]) -> (res: Result<u64, ProgramFailure>)
    ensures
        res == close_key_outcome(program_id@, accounts@, old(key_data)@, data@),
        res is Ok ==> final(key_data)@ == spliced(old(key_data)@, 0, CLOSED_DISCRIMINATOR@),
        res is Err ==> final(key_data)@ == old(key_data)@,
{
    if data.len() != 0 {
        return Err(FalconAuthError::InvalidInstructionData.into_failure());
    }
    if accounts.len() < 2 {
        return Err(ProgramFailure::NotEnoughAccountKeys);
    }
    let authority = accounts[0];
    let key = accounts[1];
    check_authority_accounts(program_id, &authority, &key)?;
    check_key_account(program_id, &authority.key, &key.key, key_data)?;
    let total = match authority.lamports.checked_add(key.lamports) {
        Some(t) => t,
        None => { return Err(FalconAuthError::ArithmeticOverflow.into_failure()); },
    };
    write_bytes(key_data, 0, CLOSED_DISCRIMINATOR.as_slice());
    Ok(total)
}

// ---------------------------------------------------------------------------------------
// Laws.

/// Replacing the nonce keeps the header and the key, and the new nonce reads back.
pub proof fn lemma_with_nonce(d: Seq<u8>, v: u64)
    requires
        d.len() == FALCON_KEY_ACCOUNT_LEN,
    ensures
        with_nonce(d, v).len() == d.len(),
        with_nonce(d, v).subrange(0, 44) == d.subrange(0, 44),
        stored_prepared(with_nonce(d, v)) == stored_prepared(d),
        stored_nonce(with_nonce(d, v)) == v,
{
    lemma_auto_spec_u64_to_from_le_bytes();
    let e = with_nonce(d, v);
    assert(e.subrange(0, 44) =~= d.subrange(0, 44));
    assert(stored_prepared(e) =~= stored_prepared(d));
    assert(e.subrange(44, 52) =~= spec_u64_to_le_bytes(v));
}

/// The header checks of a key account look only at its first 44 bytes.
pub proof fn lemma_key_check_header(program_id: Seq<u8>, authority: Seq<u8>, falcon_key: Seq<u8>, d: Seq<u8>, e: Seq<u8>)
    requires
        d.len() == e.len(),
        d.len() >= 44,
        d.subrange(0, 44) == e.subrange(0, 44),
    ensures
        key_account_check(program_id, authority, falcon_key, d) == key_account_check(program_id, authority, falcon_key, e),
{
    assert(d.subrange(0, 8) =~= d.subrange(0, 44).subrange(0, 8));
    assert(e.subrange(0, 8) =~= e.subrange(0, 44).subrange(0, 8));
    assert(d.subrange(12, 44) =~= d.subrange(0, 44).subrange(12, 44));
    assert(e.subrange(12, 44) =~= e.subrange(0, 44).subrange(12, 44));
    assert(d[8] == d.subrange(0, 44)[8] && e[8] == e.subrange(0, 44)[8]);
    assert(d[9] == d.subrange(0, 44)[9] && e[9] == e.subrange(0, 44)[9]);
}

/// Replay protection: once `verify_action` has accepted an instruction, the same instruction
/// is rejected on the updated account at any later slot, with `NonceMismatch` unless the
/// nonce has just reached the pending marker.
pub proof fn law_replay_rejected(program_id: Seq<u8>, accounts: Seq<AccountHeader>, d: Seq<u8>, data: Seq<u8>, slot: u64, later: u64)
    requires
        verify_action_outcome(program_id, accounts, d, data, slot) is Ok,
    ensures
        verify_action_outcome(program_id, accounts, with_nonce(d, (stored_nonce(d) + 1) as u64), data, later) is Err,
        stored_nonce(d) + 1 != PENDING_NONCE ==> verify_action_outcome(program_id, accounts, with_nonce(d, (stored_nonce(d) + 1) as u64), data, later)
            == Err::<(), ProgramFailure>(fail(FalconAuthError::NonceMismatch)),
{
    let e = with_nonce(d, (stored_nonce(d) + 1) as u64);
    lemma_with_nonce(d, (stored_nonce(d) + 1) as u64);
    lemma_key_check_header(program_id, accounts[0].key@, accounts[1].key@, d, e);
    assert(e[10] == e.subrange(0, 44)[10] && d[10] == d.subrange(0, 44)[10]);
}

/// A pending key account (just registered or rotated) authorizes nothing.
pub proof fn law_pending_key_rejects_actions(program_id: Seq<u8>, accounts: Seq<AccountHeader>, d: Seq<u8>, data: Seq<u8>, slot: u64)
    requires
        stored_nonce(d) == PENDING_NONCE,
    ensures
        verify_action_outcome(program_id, accounts, d, data, slot) is Err,
{
}

/// A rotated key account is pending: the old key authorizes nothing until a new key is
/// uploaded and finalized.
pub proof fn law_rotation_revokes(program_id: Seq<u8>, accounts: Seq<AccountHeader>, d: Seq<u8>, ix: Seq<u8>, data: Seq<u8>, slot: u64)
    requires
        rotate_key_outcome(program_id, accounts, d, ix) is Ok,
    ensures
        stored_nonce(rotated(d)) == PENDING_NONCE,
        verify_action_outcome(program_id, accounts, rotated(d), data, slot) is Err,
{
    lemma_auto_spec_u64_to_from_le_bytes();
    let w = with_nonce(d, PENDING_NONCE);
    lemma_with_nonce(d, PENDING_NONCE);
    assert(rotated(d).subrange(44, 52) =~= w.subrange(44, 52));
}

/// Registration writes an account that passes the key-account checks at the canonical PDA,
/// in the pending state, with the requested cluster.
pub proof fn law_registered_account_valid(program_id: Seq<u8>, authority: Seq<u8>, key: Seq<u8>, bump: u8, cluster: u8)
    requires
        authority.len() == 32,
        key_pda(authority, program_id) == Some((key, bump)),
    ensures
        key_account_check(program_id, authority, key, pending_key_account(bump, cluster, authority)) == Ok::<(), FalconAuthError>(()),
        stored_nonce(pending_key_account(bump, cluster, authority)) == PENDING_NONCE,
        pending_key_account(bump, cluster, authority)[10] == cluster,
{
    lemma_auto_spec_u64_to_from_le_bytes();
    let d = pending_key_account(bump, cluster, authority);
    assert(d.subrange(0, 8) =~= FALCON_KEY_DISCRIMINATOR@);
    assert(d.subrange(12, 44) =~= authority);
    assert(d.subrange(44, 52) =~= spec_u64_to_le_bytes(PENDING_NONCE));
}

/// Finalizing activates the uploaded key: nonce 0, key bytes untouched, account still valid.
pub proof fn law_finalize_activates(program_id: Seq<u8>, accounts: Seq<AccountHeader>, d: Seq<u8>, ix: Seq<u8>)
    requires
        finalize_key_outcome(program_id, accounts, d, ix) is Ok,
    ensures
        stored_nonce(with_nonce(d, 0)) == 0,
        stored_prepared(with_nonce(d, 0)) == stored_prepared(d),
        spec_valid_prepared_pubkey(stored_prepared(with_nonce(d, 0))),
        key_account_check(program_id, accounts[0].key@, accounts[1].key@, with_nonce(d, 0)) == Ok::<(), FalconAuthError>(()),
{
    lemma_with_nonce(d, 0);
    lemma_key_check_header(program_id, accounts[0].key@, accounts[1].key@, d, with_nonce(d, 0));
}

/// A closed key account is refused as closed by every later instruction's account check.
pub proof fn law_closed_account_refused(program_id: Seq<u8>, accounts: Seq<AccountHeader>, d: Seq<u8>, ix: Seq<u8>, authority: Seq<u8>, key: Seq<u8>)
    requires
        close_key_outcome(program_id, accounts, d, ix) is Ok,
    ensures
        key_account_check(program_id, authority, key, spliced(d, 0, CLOSED_DISCRIMINATOR@)) == Err::<(), FalconAuthError>(FalconAuthError::AccountClosed),
{
    let e = spliced(d, 0, CLOSED_DISCRIMINATOR@);
    assert(e.subrange(0, 8) =~= CLOSED_DISCRIMINATOR@);
    assert(CLOSED_DISCRIMINATOR@ != FALCON_KEY_DISCRIMINATOR@) by {
        assert(CLOSED_DISCRIMINATOR@[0] != FALCON_KEY_DISCRIMINATOR@[0]);
    }
}

/// The chunk write that stores `chunk` at byte `offset` of the prepared key.
pub open spec fn key_chunk_data(offset: u16, chunk: Seq<u8>) -> Seq<u8> {
    spec_u16_to_le_bytes(offset) + chunk
}

/// Uploading a key into a pending account that holds only `d`'s prepared area in flux.
proof fn lemma_pending_upload(program_id: Seq<u8>, accounts: Seq<AccountHeader>, d: Seq<u8>, p: Seq<u8>)
    requires
        p.len() == FALCON_PREPARED_PUBKEY_LEN,
        accounts.len() >= 2,
        authority_checks(program_id, accounts[0], accounts[1]) is Ok,
        key_account_check(program_id, accounts[0].key@, accounts[1].key@, d) is Ok,
        stored_nonce(d) == PENDING_NONCE,
    ensures
        ({
            let d1 = spliced(d, 52, p.subrange(0, 512));
            let d2 = spliced(d1, 564, p.subrange(512, 1024));
            &&& write_key_chunk_outcome(program_id, accounts, d, key_chunk_data(0, p.subrange(0, 512))) is Ok
            &&& write_key_chunk_outcome(program_id, accounts, d1, key_chunk_data(512, p.subrange(512, 1024))) is Ok
            &&& d2.subrange(0, 52) == d.subrange(0, 52)
            &&& stored_prepared(d2) == p
            &&& stored_nonce(d2) == PENDING_NONCE
            &&& finalize_key_outcome(program_id, accounts, d2, seq![]) == (if spec_valid_prepared_pubkey(p) { Ok(()) } else {
                Err::<(), ProgramFailure>(fail(FalconAuthError::InvalidFalconPubkey)) })
            &&& stored_nonce(with_nonce(d2, 0)) == 0
            &&& stored_prepared(with_nonce(d2, 0)) == p
        }),
{
    lemma_auto_spec_u16_to_from_le_bytes();
    let c1 = key_chunk_data(0, p.subrange(0, 512));
    let c2 = key_chunk_data(512, p.subrange(512, 1024));
    assert(c1.subrange(0, 2) =~= spec_u16_to_le_bytes(0));
    assert(c2.subrange(0, 2) =~= spec_u16_to_le_bytes(512));
    assert(d.len() == FALCON_KEY_ACCOUNT_LEN);
    let d1 = spliced(d, 52, p.subrange(0, 512));
    let d2 = spliced(d1, 564, p.subrange(512, 1024));
    assert(d1.subrange(0, 52) =~= d.subrange(0, 52));
    assert(d2.subrange(0, 52) =~= d.subrange(0, 52));
    assert(d1.subrange(0, 44) =~= d.subrange(0, 44));
    assert(d2.subrange(0, 44) =~= d.subrange(0, 44));
    assert(d1.subrange(44, 52) =~= d.subrange(44, 52));
    assert(d2.subrange(44, 52) =~= d.subrange(44, 52));
    lemma_key_check_header(program_id, accounts[0].key@, accounts[1].key@, d, d1);
    lemma_key_check_header(program_id, accounts[0].key@, accounts[1].key@, d, d2);
    assert(stored_prepared(d2) =~= p);
    lemma_with_nonce(d2, 0);
}

/// Registering a key: a pending account that receives a 1024-byte key `p` in two chunk
/// writes holds `p` with the nonce still pending; finalizing then succeeds exactly when every
/// little-endian coefficient of `p` is below 12289, and leaves `p` stored with nonce 0.
/// Otherwise it is refused as an invalid key and the account keeps the pending nonce.
pub proof fn law_key_upload_then_finalize(program_id: Seq<u8>, accounts: Seq<AccountHeader>, d: Seq<u8>, p: Seq<u8>)
    requires
        p.len() == FALCON_PREPARED_PUBKEY_LEN,
        write_key_chunk_outcome(program_id, accounts, d, key_chunk_data(0, p.subrange(0, 512))) is Ok,
    ensures
        ({
            let d1 = spliced(d, 52, p.subrange(0, 512));
            let d2 = spliced(d1, 564, p.subrange(512, 1024));
            &&& write_key_chunk_outcome(program_id, accounts, d1, key_chunk_data(512, p.subrange(512, 1024))) is Ok
            &&& stored_prepared(d2) == p
            &&& stored_nonce(d2) == PENDING_NONCE
            &&& finalize_key_outcome(program_id, accounts, d2, seq![]) == (if spec_valid_prepared_pubkey(p) { Ok(()) } else {
                Err::<(), ProgramFailure>(fail(FalconAuthError::InvalidFalconPubkey)) })
            &&& stored_nonce(with_nonce(d2, 0)) == 0
            &&& stored_prepared(with_nonce(d2, 0)) == p
        }),
{
    lemma_auto_spec_u16_to_from_le_bytes();
    let c1 = key_chunk_data(0, p.subrange(0, 512));
    assert(c1.subrange(0, 2) =~= spec_u16_to_le_bytes(0));
    lemma_pending_upload(program_id, accounts, d, p);
}

/// Rotating a key: the account becomes pending with a placeholder key and is otherwise
/// unchanged; rotating it again is refused; a new key `p` uploaded in two chunks is then
/// accepted by finalize exactly when it is well formed, and is what the account holds with
/// nonce 0 after it.
pub proof fn law_rotation_lifecycle(program_id: Seq<u8>, accounts: Seq<AccountHeader>, d: Seq<u8>, p: Seq<u8>)
    requires
        p.len() == FALCON_PREPARED_PUBKEY_LEN,
        rotate_key_outcome(program_id, accounts, d, seq![]) is Ok,
    ensures
        ({
            let r = rotated(d);
            let d1 = spliced(r, 52, p.subrange(0, 512));
            let d2 = spliced(d1, 564, p.subrange(512, 1024));
            &&& stored_nonce(r) == PENDING_NONCE
            &&& stored_prepared(r) == Seq::new(1024, |i: int| 255u8)
            &&& r.subrange(0, 44) == d.subrange(0, 44)
            &&& rotate_key_outcome(program_id, accounts, r, seq![]) == Err::<(), ProgramFailure>(fail(FalconAuthError::InvalidAccountData))
            &&& write_key_chunk_outcome(program_id, accounts, r, key_chunk_data(0, p.subrange(0, 512))) is Ok
            &&& write_key_chunk_outcome(program_id, accounts, d1, key_chunk_data(512, p.subrange(512, 1024))) is Ok
            &&& finalize_key_outcome(program_id, accounts, d2, seq![]) == (if spec_valid_prepared_pubkey(p) { Ok(()) } else {
                Err::<(), ProgramFailure>(fail(FalconAuthError::InvalidFalconPubkey)) })
            &&& stored_nonce(with_nonce(d2, 0)) == 0
            &&& stored_prepared(with_nonce(d2, 0)) == p
        }),
{
    lemma_auto_spec_u64_to_from_le_bytes();
    let r = rotated(d);
    let w = with_nonce(d, PENDING_NONCE);
    lemma_with_nonce(d, PENDING_NONCE);
    assert(r.subrange(0, 44) =~= d.subrange(0, 44)) by {
        assert(r.subrange(0, 44) =~= w.subrange(0, 44));
    }
    assert(r.subrange(44, 52) =~= w.subrange(44, 52));
    assert(stored_prepared(r) =~= Seq::new(1024, |i: int| 255u8));
    lemma_key_check_header(program_id, accounts[0].key@, accounts[1].key@, d, r);
    lemma_pending_upload(program_id, accounts, r, p);
}

/// Closing a key: the account is marked closed and every later close, rotation or action
/// check by the same accounts is refused as closed.
pub proof fn law_close_lifecycle(program_id: Seq<u8>, accounts: Seq<AccountHeader>, d: Seq<u8>, action: Seq<u8>, slot: u64)
    requires
        close_key_outcome(program_id, accounts, d, seq![]) is Ok,
        action.len() == VERIFY_ACTION_DATA_LEN,
    ensures
        ({
            let c = spliced(d, 0, CLOSED_DISCRIMINATOR@);
            &&& c.subrange(8, c.len() as int) == d.subrange(8, d.len() as int)
            &&& close_key_outcome(program_id, accounts, c, seq![]) == Err::<u64, ProgramFailure>(fail(FalconAuthError::AccountClosed))
            &&& rotate_key_outcome(program_id, accounts, c, seq![]) == Err::<(), ProgramFailure>(fail(FalconAuthError::AccountClosed))
            &&& verify_action_outcome(program_id, accounts, c, action, slot) == Err::<(), ProgramFailure>(fail(FalconAuthError::AccountClosed))
        }),
{
    let c = spliced(d, 0, CLOSED_DISCRIMINATOR@);
    assert(c.subrange(0, 8) =~= CLOSED_DISCRIMINATOR@);
    assert(c.subrange(8, c.len() as int) =~= d.subrange(8, d.len() as int));
    assert(c.subrange(0, 8) != FALCON_KEY_DISCRIMINATOR@) by {
        assert(c.subrange(0, 8)[0] != FALCON_KEY_DISCRIMINATOR@[0]);
    }
}

/// Finalizing applies only to a pending key account: it succeeds only when the stored nonce
/// is the pending marker and the stored key is well formed, so it never lowers the nonce of
/// an active key; once the account checks pass, an active account is refused as invalid data.
/// In particular, after an accepted action the same account cannot be finalized.
pub proof fn law_finalize_only_pending(program_id: Seq<u8>, accounts: Seq<AccountHeader>, d: Seq<u8>, data: Seq<u8>, action: Seq<u8>, slot: u64)
    ensures
        finalize_key_outcome(program_id, accounts, d, data) is Ok ==> {
            &&& stored_nonce(d) == PENDING_NONCE
            &&& spec_valid_prepared_pubkey(stored_prepared(d))
            &&& key_account_check(program_id, accounts[0].key@, accounts[1].key@, d) is Ok
            &&& authority_checks(program_id, accounts[0], accounts[1]) is Ok
        },
        data.len() == 0 && accounts.len() >= 2 && authority_checks(program_id, accounts[0], accounts[1]) is Ok
            && key_account_check(program_id, accounts[0].key@, accounts[1].key@, d) is Ok && stored_nonce(d) != PENDING_NONCE
            ==> finalize_key_outcome(program_id, accounts, d, data) == Err::<(), ProgramFailure>(fail(FalconAuthError::InvalidAccountData)),
        verify_action_outcome(program_id, accounts, d, action, slot) is Ok ==> finalize_key_outcome(program_id, accounts, d, data) is Err,
{
}

/// A registration is planned only when the authority signs, the key account is the
/// authority's canonical PDA with the given bump, is still an empty system account, and the
/// system program is supplied; the planned account records the requested cluster.
pub proof fn law_register_requires_fresh_pda(program_id: Seq<u8>, accounts: Seq<AccountHeader>, d: Seq<u8>, data: Seq<u8>)
    ensures
        register_key_outcome(program_id, accounts, d, data) is Ok ==> {
            &&& data.len() == 2
            &&& accounts.len() >= 3
            &&& accounts[0].is_signer
            &&& accounts[0].is_writable && accounts[1].is_writable
            &&& accounts[2].key@ == system_program_id()
            &&& key_pda(accounts[0].key@, program_id) == Some((accounts[1].key@, data[0]))
            &&& accounts[1].owner@ == system_program_id()
            &&& d.len() == 0
            &&& register_key_outcome(program_id, accounts, d, data) == Ok::<RegisterKeyPlan, ProgramFailure>(RegisterKeyPlan { bump: data[0], cluster: data[1] })
        },
{
}

/// An action is accepted only for a valid, active key account of the authority, when the
/// action's cluster is the account's cluster, its nonce is the account's next nonce, the slot
/// is not past its expiry, and the Falcon signature verifies over the action payload under the
/// stored key. Changing the cluster, nonce or payload of an accepted action breaks one of these.
pub proof fn law_verify_action_requirements(program_id: Seq<u8>, accounts: Seq<AccountHeader>, d: Seq<u8>, data: Seq<u8>, slot: u64)
    ensures
        verify_action_outcome(program_id, accounts, d, data, slot) is Ok ==> {
            &&& data.len() == VERIFY_ACTION_DATA_LEN
            &&& accounts.len() >= 2
            &&& accounts[1].is_writable
            &&& accounts[1].owner@ == program_id
            &&& accounts[0].key@ != accounts[1].key@
            &&& key_account_check(program_id, accounts[0].key@, accounts[1].key@, d) is Ok
            &&& d[10] == data[0]
            &&& stored_nonce(d) != PENDING_NONCE
            &&& spec_u64_from_le_bytes(data.subrange(1, 9)) == stored_nonce(d)
            &&& slot <= spec_u64_from_le_bytes(data.subrange(9, 17))
            &&& spec_falcon512_verify(data.subrange(81, 747),
                action_payload(data[0], program_id, accounts[0].key@, accounts[1].key@, stored_nonce(d), spec_u64_from_le_bytes(data.subrange(9, 17)),
                    data.subrange(17, 49), data.subrange(49, 81)), stored_prepared(d))
        },
{
}

/// A key chunk is written only by the signing authority into its own pending key account,
/// within the 1024-byte key area and at even offsets and lengths.
pub proof fn law_key_chunk_requirements(program_id: Seq<u8>, accounts: Seq<AccountHeader>, d: Seq<u8>, data: Seq<u8>)
    ensures
        write_key_chunk_outcome(program_id, accounts, d, data) is Ok ==> {
            &&& data.len() >= 4
            &&& accounts.len() >= 2
            &&& authority_checks(program_id, accounts[0], accounts[1]) is Ok
            &&& accounts[0].is_signer
            &&& key_account_check(program_id, accounts[0].key@, accounts[1].key@, d) is Ok
            &&& stored_nonce(d) == PENDING_NONCE
            &&& spec_u16_from_le_bytes(data.subrange(0, 2)) + (data.len() - 2) <= FALCON_PREPARED_PUBKEY_LEN
            &&& spec_u16_from_le_bytes(data.subrange(0, 2)) % 2 == 0
            &&& (data.len() - 2) % 2 == 0
        },
{
}

/// Rotation and close are performed only by the signing authority on its own valid key
/// account; rotation only from the active state.
pub proof fn law_rotate_close_requirements(program_id: Seq<u8>, accounts: Seq<AccountHeader>, d: Seq<u8>, data: Seq<u8>)
    ensures
        rotate_key_outcome(program_id, accounts, d, data) is Ok ==> {
            &&& accounts.len() >= 2
            &&& accounts[0].is_signer
            &&& authority_checks(program_id, accounts[0], accounts[1]) is Ok
            &&& key_account_check(program_id, accounts[0].key@, accounts[1].key@, d) is Ok
            &&& stored_nonce(d) != PENDING_NONCE
        },
        close_key_outcome(program_id, accounts, d, data) is Ok ==> {
            &&& accounts.len() >= 2
            &&& accounts[0].is_signer
            &&& authority_checks(program_id, accounts[0], accounts[1]) is Ok
            &&& key_account_check(program_id, accounts[0].key@, accounts[1].key@, d) is Ok
            &&& close_key_outcome(program_id, accounts, d, data) == Ok::<u64, ProgramFailure>((accounts[0].lamports + accounts[1].lamports) as u64)
            &&& accounts[0].lamports + accounts[1].lamports <= u64::MAX
        },
{
}

/// A key account passes its checks only when it is a version-1 Falcon key account of full
/// size that stores this authority and sits at the authority's canonical key address with its
/// stored bump; a closed account is reported as closed.
pub proof fn law_key_account_requirements(program_id: Seq<u8>, authority: Seq<u8>, falcon_key: Seq<u8>, d: Seq<u8>)
    ensures
        key_account_check(program_id, authority, falcon_key, d) is Ok ==> {
            &&& d.len() == FALCON_KEY_ACCOUNT_LEN
            &&& d.subrange(0, 8) == FALCON_KEY_DISCRIMINATOR@
            &&& d[8] == VERSION
            &&& d.subrange(12, 44) == authority
            &&& key_pda(authority, program_id) == Some((falcon_key, d[9]))
        },
        d.len() == FALCON_KEY_ACCOUNT_LEN && d.subrange(0, 8) == CLOSED_DISCRIMINATOR@
            ==> key_account_check(program_id, authority, falcon_key, d) == Err::<(), FalconAuthError>(FalconAuthError::AccountClosed),
{
}

/// The authority's instructions pass their shared checks only when the authority signs,
/// authority and key account are writable and distinct, and the key account is the program's.
pub proof fn law_authority_requirements(program_id: Seq<u8>, authority: AccountHeader, key: AccountHeader)
    ensures
        authority_checks(program_id, authority, key) is Ok ==> {
            &&& authority.is_signer
            &&& authority.is_writable && key.is_writable
            &&& authority.key@ != key.key@
            &&& key.owner@ == program_id
        },
{
}

/// The Falcon action payload binds every field it is built from: two payloads are equal only
/// when cluster, program, authority, key account, nonce, expiry, action domain and action hash
/// are all equal, so a signature over one action authorizes no other.
pub proof fn law_action_payload_binds_fields(cluster: u8, program_id: Seq<u8>, authority: Seq<u8>, falcon_key: Seq<u8>, nonce: u64,
    expires_slot: u64, action_domain: Seq<u8>, action_hash: Seq<u8>,
    cluster2: u8, program_id2: Seq<u8>, authority2: Seq<u8>, falcon_key2: Seq<u8>, nonce2: u64,
    expires_slot2: u64, action_domain2: Seq<u8>, action_hash2: Seq<u8>)
    requires
        program_id.len() == 32, authority.len() == 32, falcon_key.len() == 32, action_domain.len() == 32, action_hash.len() == 32,
        program_id2.len() == 32, authority2.len() == 32, falcon_key2.len() == 32, action_domain2.len() == 32, action_hash2.len() == 32,
        action_payload(cluster, program_id, authority, falcon_key, nonce, expires_slot, action_domain, action_hash)
            == action_payload(cluster2, program_id2, authority2, falcon_key2, nonce2, expires_slot2, action_domain2, action_hash2),
    ensures
        cluster == cluster2, program_id == program_id2, authority == authority2, falcon_key == falcon_key2, nonce == nonce2,
        expires_slot == expires_slot2, action_domain == action_domain2, action_hash == action_hash2,
{
    lemma_auto_spec_u64_to_from_le_bytes();
    let p = action_payload(cluster, program_id, authority, falcon_key, nonce, expires_slot, action_domain, action_hash);
    let q = action_payload(cluster2, program_id2, authority2, falcon_key2, nonce2, expires_slot2, action_domain2, action_hash2);
    assert(p[16] == cluster && q[16] == cluster2);
    assert(p.subrange(17, 49) =~= program_id && q.subrange(17, 49) =~= program_id2);
    assert(p.subrange(49, 81) =~= authority && q.subrange(49, 81) =~= authority2);
    assert(p.subrange(81, 113) =~= falcon_key && q.subrange(81, 113) =~= falcon_key2);
    assert(p.subrange(113, 121) =~= spec_u64_to_le_bytes(nonce) && q.subrange(113, 121) =~= spec_u64_to_le_bytes(nonce2));
    assert(p.subrange(121, 129) =~= spec_u64_to_le_bytes(expires_slot) && q.subrange(121, 129) =~= spec_u64_to_le_bytes(expires_slot2));
    assert(p.subrange(129, 161) =~= action_domain && q.subrange(129, 161) =~= action_domain2);
    assert(p.subrange(161, 193) =~= action_hash && q.subrange(161, 193) =~= action_hash2);
}

} // verus!
