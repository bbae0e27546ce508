//! The smart account: state, the transfer hashes the quorum approves, Falcon signature
//! buffers, and the checks shared by every transfer.
use vstd::prelude::*;
use vstd::bytes::{spec_u64_from_le_bytes, spec_u64_to_le_bytes, spec_u16_from_le_bytes, spec_u16_to_le_bytes, u64_to_le_bytes, u16_to_le_bytes,
    lemma_auto_spec_u64_to_from_le_bytes};
use crate::digest::{sha256, spec_sha256, find_program_address, spec_find_program_address, seeds_view};
use crate::mldsa44::protocol::append_bytes;
use crate::runtime::{AccountHeader, ProgramFailure, keys_eq, bytes_eq, read_u64, read_u16, write_bytes, fill_bytes, spliced};

verus! {

pub const VERSION: u8 = 1;
/// `b"pq-smart"`
pub const SMART_ACCOUNT_SEED: [u8; 8] = [112, 113, 45, 115, 109, 97, 114, 116];
/// `b"falcon-sig"`
pub const FALCON_SIGNATURE_SEED: [u8; 10] = [102, 97, 108, 99, 111, 110, 45, 115, 105, 103];
/// `b"PQSMRT01"`
pub const SMART_ACCOUNT_DISCRIMINATOR: [u8; 8] = [80, 81, 83, 77, 82, 84, 48, 49];
/// `b"FALCSIG1"`
pub const FALCON_SIGNATURE_DISCRIMINATOR: [u8; 8] = [70, 65, 76, 67, 83, 73, 71, 49];
/// `b"PQ_SMART_TRANSFER_SOL_V1________"`
pub const SMART_TRANSFER_DOMAIN: [u8; 32] = [80, 81, 95, 83, 77, 65, 82, 84, 95, 84, 82, 65, 78, 83, 70, 69, 82, 95, 83, 79, 76, 95, 86, 49, 95, 95, 95, 95, 95, 95, 95, 95];
/// `b"PQ_SMART_TRANSFER_SPL_V1________"`
pub const SMART_TOKEN_TRANSFER_DOMAIN: [u8; 32] = [80, 81, 95, 83, 77, 65, 82, 84, 95, 84, 82, 65, 78, 83, 70, 69, 82, 95, 83, 80, 76, 95, 86, 49, 95, 95, 95, 95, 95, 95, 95, 95];
/// `b"pq-smart-account-transfer-sol-v1"`
pub const SOL_TRANSFER_TAG: [u8; 32] = [112, 113, 45, 115, 109, 97, 114, 116, 45, 97, 99, 99, 111, 117, 110, 116, 45, 116, 114, 97, 110, 115, 102, 101, 114, 45, 115, 111, 108, 45, 118, 49];
/// `b"pq-smart-account-transfer-spl-v1"`
pub const SPL_TRANSFER_TAG: [u8; 32] = [112, 113, 45, 115, 109, 97, 114, 116, 45, 97, 99, 99, 111, 117, 110, 116, 45, 116, 114, 97, 110, 115, 102, 101, 114, 45, 115, 112, 108, 45, 118, 49];
/// The classic SPL token program (`TokenkegQfeZyiNwAJbNbGKPFXCWuBvf9Ss623VQ5DA`).
pub const SPL_TOKEN_PROGRAM_ID: [u8; 32] = [6, 221, 246, 225, 215, 101, 161, 147, 217, 203, 225, 70, 206, 235, 121, 172, 28, 180, 133, 237, 95, 91, 55, 145, 58, 140, 245, 133, 126, 255, 0, 169];
pub const FALCON_SIGNATURE_LEN: usize = 666;
pub const SPEND_COUNT_OFFSET: usize = 108;
pub const SMART_ACCOUNT_LEN: usize = 116;
pub const SIGBUF_WRITTEN_OFFSET: usize = 116;
pub const SIGBUF_DATA_OFFSET: usize = 118;
pub const FALCON_SIGNATURE_BUFFER_LEN: usize = 784;
pub const TOKEN_ACCOUNT_LEN: usize = 165;
pub const MINT_LEN: usize = 82;
pub const SPL_TOKEN_TRANSFER_CHECKED_TAG: u8 = 12;

/// Errors of the smart account program.
#[derive(Clone, Copy, PartialEq, Eq, Structural, Debug)]
pub enum PqSmartAccountError {
    InvalidInstructionData,
    InvalidAccountOwner,
    InvalidAccountData,
    InvalidPda,
    InvalidQuorumProgram,
    ArithmeticOverflow,
    InsufficientSmartAccountFunds,
    InvalidSignatureBuffer,
    InvalidTokenProgram,
    InvalidTokenAccount,
}

impl PqSmartAccountError {
    pub open spec fn spec_code(self) -> u32 {
        match self {
            PqSmartAccountError::InvalidInstructionData => 1,
            PqSmartAccountError::InvalidAccountOwner => 2,
            PqSmartAccountError::InvalidAccountData => 3,
            PqSmartAccountError::InvalidPda => 4,
            PqSmartAccountError::InvalidQuorumProgram => 5,
            PqSmartAccountError::ArithmeticOverflow => 6,
            PqSmartAccountError::InsufficientSmartAccountFunds => 7,
            PqSmartAccountError::InvalidSignatureBuffer => 8,
            PqSmartAccountError::InvalidTokenProgram => 9,
            PqSmartAccountError::InvalidTokenAccount => 10,
        }
    }

    /// The custom error code the program answers with.
    pub fn code(&self) -> (c: u32)
        ensures
            c == self.spec_code(),
    {
        match self {
            PqSmartAccountError::InvalidInstructionData => 1,
            PqSmartAccountError::InvalidAccountOwner => 2,
            PqSmartAccountError::InvalidAccountData => 3,
            PqSmartAccountError::InvalidPda => 4,
            PqSmartAccountError::InvalidQuorumProgram => 5,
            PqSmartAccountError::ArithmeticOverflow => 6,
            PqSmartAccountError::InsufficientSmartAccountFunds => 7,
            PqSmartAccountError::InvalidSignatureBuffer => 8,
            PqSmartAccountError::InvalidTokenProgram => 9,
            PqSmartAccountError::InvalidTokenAccount => 10,
        }
    }

    /// The runtime error carrying this code.
    pub fn into_failure(self) -> (f: ProgramFailure)
        ensures
            f == ProgramFailure::Custom(self.spec_code()),
    {
        ProgramFailure::Custom(self.code())
    }
}

pub open spec fn sfail(e: PqSmartAccountError) -> ProgramFailure {
    ProgramFailure::Custom(e.spec_code())
}

pub open spec fn u64_at(data: Seq<u8>, at: int) -> u64 {
    spec_u64_from_le_bytes(data.subrange(at, at + 8))
}

// ---------------------------------------------------------------------------------------
// Domains and transfer hashes.

/// The action domain of SOL transfers.
pub fn smart_transfer_domain() -> (d: [u8; 32])
    ensures
        d@ == SMART_TRANSFER_DOMAIN@,
{
    SMART_TRANSFER_DOMAIN
}

/// The action domain of SPL token transfers.
pub fn smart_token_transfer_domain() -> (d: [u8; 32])
    ensures
        d@ == SMART_TOKEN_TRANSFER_DOMAIN@,
{
    SMART_TOKEN_TRANSFER_DOMAIN
}

pub open spec fn sol_transfer_preimage(program_id: Seq<u8>, smart_account: Seq<u8>, authority: Seq<u8>, destination: Seq<u8>, lamports: u64,
    spend_count: u64) -> Seq<u8> {
    SOL_TRANSFER_TAG@ + program_id + smart_account + authority + destination + spec_u64_to_le_bytes(lamports) + spec_u64_to_le_bytes(spend_count)
}

/// The action hash of a SOL transfer: it names the account, the destination, the amount and
/// the spend count.
pub fn smart_transfer_hash(program_id: &[u8; 32], smart_account: &[u8; 32], authority: &[u8; 32], destination: &[u8; 32], lamports: u64,
    spend_count: u64) -> (out: [u8; 32])
    ensures
        out@ == spec_sha256(sol_transfer_preimage(program_id@, smart_account@, authority@, destination@, lamports, spend_count)),
{
    let mut input: Vec<u8> = Vec::new();
    append_bytes(&mut input, SOL_TRANSFER_TAG.as_slice());
    append_bytes(&mut input, program_id.as_slice());
    append_bytes(&mut input, smart_account.as_slice());
    append_bytes(&mut input, authority.as_slice());
    append_bytes(&mut input, destination.as_slice());
    let l = u64_to_le_bytes(lamports);
    append_bytes(&mut input, l.as_slice());
    let s = u64_to_le_bytes(spend_count);
    append_bytes(&mut input, s.as_slice());
    proof {
        assert(input@ =~= sol_transfer_preimage(program_id@, smart_account@, authority@, destination@, lamports, spend_count));
    }
    sha256(input.as_slice())
}

/// What an SPL token transfer's action hash covers.
#[derive(Clone, Copy)]
pub struct SmartTokenTransferHashInput {
    pub program_id: [u8; 32],
    pub smart_account: [u8; 32],
    pub authority: [u8; 32],
    pub token_program: [u8; 32],
    pub source_token: [u8; 32],
    pub mint: [u8; 32],
    pub destination_token: [u8; 32],
    pub amount: u64,
    pub decimals: u8,
    pub spend_count: u64,
}

pub open spec fn token_transfer_preimage(i: SmartTokenTransferHashInput) -> Seq<u8> {
    SPL_TRANSFER_TAG@ + i.program_id@ + i.smart_account@ + i.authority@ + i.token_program@ + i.source_token@ + i.mint@ + i.destination_token@
        + spec_u64_to_le_bytes(i.amount) + seq![i.decimals] + spec_u64_to_le_bytes(i.spend_count)
}

/// The action hash of an SPL token transfer.
pub fn smart_token_transfer_hash(input: SmartTokenTransferHashInput) -> (out: [u8; 32])
    ensures
        out@ == spec_sha256(token_transfer_preimage(input)),
{
    let mut bytes: Vec<u8> = Vec::new();
    append_bytes(&mut bytes, SPL_TRANSFER_TAG.as_slice());
    append_bytes(&mut bytes, input.program_id.as_slice());
    append_bytes(&mut bytes, input.smart_account.as_slice());
    append_bytes(&mut bytes, input.authority.as_slice());
    append_bytes(&mut bytes, input.token_program.as_slice());
    append_bytes(&mut bytes, input.source_token.as_slice());
    append_bytes(&mut bytes, input.mint.as_slice());
    append_bytes(&mut bytes, input.destination_token.as_slice());
    let a = u64_to_le_bytes(input.amount);
    append_bytes(&mut bytes, a.as_slice());
    bytes.push(input.decimals);
    let s = u64_to_le_bytes(input.spend_count);
    append_bytes(&mut bytes, s.as_slice());
    proof {
        assert(bytes@ =~= token_transfer_preimage(input));
    }
    sha256(bytes.as_slice())
}

// ---------------------------------------------------------------------------------------
// The smart account.

pub open spec fn smart_seeds(authority: Seq<u8>, pq_quorum_program: Seq<u8>, quorum: Seq<u8>) -> Seq<Seq<u8>> {
    seq![SMART_ACCOUNT_SEED@, authority, pq_quorum_program, quorum]
}

fn derive_smart_account(authority: &[u8], pq_quorum_program: &[u8], quorum: &[u8], program_id: &[u8; 32]) -> (res: Option<([u8; 32], u8)>)
    ensures
        match res {
            Some((k, b)) => spec_find_program_address(smart_seeds(authority@, pq_quorum_program@, quorum@), program_id@) == Some((k@, b)),
            None => spec_find_program_address(smart_seeds(authority@, pq_quorum_program@, quorum@), program_id@) is None,
        },
{
    let seeds: [&[u8]; 4] = [SMART_ACCOUNT_SEED.as_slice(), authority, pq_quorum_program, quorum];
    proof {
        assert(seeds_view(seeds@) =~= smart_seeds(authority@, pq_quorum_program@, quorum@));
    }
    find_program_address(&seeds, program_id)
}

/// `Ok` when `key` is the smart account PDA with bump `bump`.
pub open spec fn smart_pda_check(program_id: Seq<u8>, authority: Seq<u8>, pq_quorum_program: Seq<u8>, quorum: Seq<u8>, key: Seq<u8>, bump: u8)
    -> Result<(), PqSmartAccountError> {
    match spec_find_program_address(smart_seeds(authority, pq_quorum_program, quorum), program_id) {
        None => Err(PqSmartAccountError::InvalidPda),
        Some((k, b)) => if k != key || b != bump { Err(PqSmartAccountError::InvalidPda) } else { Ok(()) },
    }
}

/// Checks the smart account PDA.
pub fn validate_smart_account_pda(program_id: &[u8; 32], authority: &[u8; 32], pq_quorum_program: &[u8; 32], quorum: &[u8; 32], key: &[u8; 32], bump: u8)
    -> (res: Result<(), PqSmartAccountError>)
    ensures
        res == smart_pda_check(program_id@, authority@, pq_quorum_program@, quorum@, key@, bump),
{
    match derive_smart_account(authority.as_slice(), pq_quorum_program.as_slice(), quorum.as_slice(), program_id) {
        None => Err(PqSmartAccountError::InvalidPda),
        Some((k, b)) => if !keys_eq(&k, key) || b != bump { Err(PqSmartAccountError::InvalidPda) } else { Ok(()) },
    }
}

/// The smart account's contents.
pub open spec fn smart_account_data(bump: u8, authority: Seq<u8>, pq_quorum_program: Seq<u8>, quorum: Seq<u8>, spend_count: u64) -> Seq<u8> {
    SMART_ACCOUNT_DISCRIMINATOR@ + seq![VERSION, bump, 0u8, 0u8] + authority + pq_quorum_program + quorum + spec_u64_to_le_bytes(spend_count)
}

/// Writes the smart account.
pub fn write_smart_account_state(data: &mut [u8], bump: u8, authority: &[u8], pq_quorum_program: &[u8], quorum: &[u8], spend_count: u64)
    -> (res: Result<(), ProgramFailure>)
    ensures
        res is Ok <==> (old(data)@.len() == SMART_ACCOUNT_LEN && authority@.len() == 32 && pq_quorum_program@.len() == 32 && quorum@.len() == 32),
        res is Err ==> res == Err::<(), ProgramFailure>(ProgramFailure::AccountDataTooSmall) && final(data)@ == old(data)@,
        res is Ok ==> final(data)@ == smart_account_data(bump, authority@, pq_quorum_program@, quorum@, spend_count),
{
    if data.len() != SMART_ACCOUNT_LEN || authority.len() != 32 || pq_quorum_program.len() != 32 || quorum.len() != 32 {
        return Err(ProgramFailure::AccountDataTooSmall);
    }
    write_bytes(data, 0, SMART_ACCOUNT_DISCRIMINATOR.as_slice());
    data[8] = VERSION;
    data[9] = bump;
    data[10] = 0;
    data[11] = 0;
    write_bytes(data, 12, authority);
    write_bytes(data, 44, pq_quorum_program);
    write_bytes(data, 76, quorum);
    let s = u64_to_le_bytes(spend_count);
    write_bytes(data, SPEND_COUNT_OFFSET, s.as_slice());
    proof {
        assert(data@ =~= smart_account_data(bump, authority@, pq_quorum_program@, quorum@, spend_count));
    }
    Ok(())
}

pub open spec fn spend_count(d: Seq<u8>) -> u64 {
    spec_u64_from_le_bytes(d.subrange(108, 116))
}

/// The checks of a smart account; the authority and the (quorum program, quorum) pair are
/// compared when given.
pub open spec fn smart_state_check(program_id: Seq<u8>, smart_account: Seq<u8>, d: Seq<u8>, authority: Option<Seq<u8>>, quorum: Option<(Seq<u8>, Seq<u8>)>)
    -> Result<(), PqSmartAccountError> {
    if d.len() != SMART_ACCOUNT_LEN || d.subrange(0, 8) != SMART_ACCOUNT_DISCRIMINATOR@ || d[8] != VERSION {
        Err(PqSmartAccountError::InvalidAccountData)
    } else if authority matches Some(a) && d.subrange(12, 44) != a {
        Err(PqSmartAccountError::InvalidAccountData)
    } else if quorum matches Some((p, q)) && (d.subrange(44, 76) != p || d.subrange(76, 108) != q) {
        Err(PqSmartAccountError::InvalidQuorumProgram)
    } else {
        smart_pda_check(program_id, d.subrange(12, 44), d.subrange(44, 76), d.subrange(76, 108), smart_account, d[9])
    }
}

/// Checks a smart account.
pub fn validate_smart_account_state(program_id: &[u8; 32], smart_account: &[u8; 32], data: &[u8], authority: Option<&[u8; 32]>,
    quorum: Option<(&[u8; 32], &[u8; 32])>) -> (res: Result<(), PqSmartAccountError>)
    ensures
        res == smart_state_check(program_id@, smart_account@, data@, match authority { Some(a) => Some(a@), None => None },
            match quorum { Some((p, q)) => Some((p@, q@)), None => None }),
{
    if data.len() != SMART_ACCOUNT_LEN || !bytes_eq(&data[0..8], SMART_ACCOUNT_DISCRIMINATOR.as_slice()) || data[8] != VERSION {
        return Err(PqSmartAccountError::InvalidAccountData);
    }
    let a = &data[12..44];
    let p = &data[44..76];
    let q = &data[76..108];
    match authority {
        Some(x) => if !bytes_eq(a, x.as_slice()) { return Err(PqSmartAccountError::InvalidAccountData); },
        None => {},
    }
    match quorum {
        Some((xp, xq)) => if !bytes_eq(p, xp.as_slice()) || !bytes_eq(q, xq.as_slice()) { return Err(PqSmartAccountError::InvalidQuorumProgram); },
        None => {},
    }
    match derive_smart_account(a, p, q, program_id) {
        None => Err(PqSmartAccountError::InvalidPda),
        Some((k, b)) => if !keys_eq(&k, smart_account) || b != data[9] { Err(PqSmartAccountError::InvalidPda) } else { Ok(()) },
    }
}

// ---------------------------------------------------------------------------------------
// Falcon signature buffers.

pub open spec fn falcon_buffer_seeds(authority: Seq<u8>, smart_account: Seq<u8>, quorum: Seq<u8>, nonce: u64) -> Seq<Seq<u8>> {
    seq![FALCON_SIGNATURE_SEED@, authority, smart_account, quorum, spec_u64_to_le_bytes(nonce)]
}

/// `Ok` when `key` is the Falcon signature buffer PDA with bump `bump`.
pub open spec fn falcon_buffer_pda_check(program_id: Seq<u8>, authority: Seq<u8>, smart_account: Seq<u8>, quorum: Seq<u8>, nonce: u64, key: Seq<u8>, bump: u8)
    -> Result<(), PqSmartAccountError> {
    match spec_find_program_address(falcon_buffer_seeds(authority, smart_account, quorum, nonce), program_id) {
        None => Err(PqSmartAccountError::InvalidPda),
        Some((k, b)) => if k != key || b != bump { Err(PqSmartAccountError::InvalidPda) } else { Ok(()) },
    }
}

/// Checks the Falcon signature buffer PDA.
pub fn validate_falcon_signature_buffer_pda(program_id: &[u8; 32], authority: &[u8; 32], smart_account: &[u8; 32], quorum: &[u8; 32], nonce: u64,
    key: &[u8; 32], bump: u8) -> (res: Result<(), PqSmartAccountError>)
    ensures
        res == falcon_buffer_pda_check(program_id@, authority@, smart_account@, quorum@, nonce, key@, bump),
{
    let nonce_bytes = u64_to_le_bytes(nonce);
    let seeds: [&[u8]; 5] = [FALCON_SIGNATURE_SEED.as_slice(), authority.as_slice(), smart_account.as_slice(), quorum.as_slice(), nonce_bytes.as_slice()];
    proof {
        assert(seeds_view(seeds@) =~= falcon_buffer_seeds(authority@, smart_account@, quorum@, nonce));
    }
    match find_program_address(&seeds, program_id) {
        None => Err(PqSmartAccountError::InvalidPda),
        Some((k, b)) => if !keys_eq(&k, key) || b != bump { Err(PqSmartAccountError::InvalidPda) } else { Ok(()) },
    }
}

/// A fresh Falcon signature buffer.
pub open spec fn falcon_buffer_init(bump: u8, authority: Seq<u8>, smart_account: Seq<u8>, quorum: Seq<u8>, nonce: u64) -> Seq<u8> {
    FALCON_SIGNATURE_DISCRIMINATOR@ + seq![VERSION, bump, 0u8, 0u8] + authority + smart_account + quorum + spec_u64_to_le_bytes(nonce)
        + spec_u16_to_le_bytes(0) + Seq::new(666, |i: int| 0u8)
}

/// Writes the header of a Falcon signature buffer and zeroes its payload.
pub fn write_falcon_signature_buffer_header(data: &mut [u8], bump: u8, authority: &[u8], smart_account: &[u8], quorum: &[u8], nonce: u64)
    -> (res: Result<(), ProgramFailure>)
    ensures
        res is Ok <==> (old(data)@.len() == FALCON_SIGNATURE_BUFFER_LEN && authority@.len() == 32 && smart_account@.len() == 32 && quorum@.len() == 32),
        res is Err ==> res == Err::<(), ProgramFailure>(ProgramFailure::AccountDataTooSmall) && final(data)@ == old(data)@,
        res is Ok ==> final(data)@ == falcon_buffer_init(bump, authority@, smart_account@, quorum@, nonce),
{
    if data.len() != FALCON_SIGNATURE_BUFFER_LEN || authority.len() != 32 || smart_account.len() != 32 || quorum.len() != 32 {
        return Err(ProgramFailure::AccountDataTooSmall);
    }
    write_bytes(data, 0, FALCON_SIGNATURE_DISCRIMINATOR.as_slice());
    data[8] = VERSION;
    data[9] = bump;
    data[10] = 0;
    data[11] = 0;
    write_bytes(data, 12, authority);
    write_bytes(data, 44, smart_account);
    write_bytes(data, 76, quorum);
    let n = u64_to_le_bytes(nonce);
    write_bytes(data, 108, n.as_slice());
    let w = u16_to_le_bytes(0);
    write_bytes(data, SIGBUF_WRITTEN_OFFSET, w.as_slice());
    fill_bytes(data, SIGBUF_DATA_OFFSET, FALCON_SIGNATURE_LEN, 0);
    proof {
        assert(data@ =~= falcon_buffer_init(bump, authority@, smart_account@, quorum@, nonce));
    }
    Ok(())
}

/// The checks of a Falcon signature buffer for this authority, account, quorum and nonce.
pub open spec fn falcon_buffer_check(program_id: Seq<u8>, buffer: Seq<u8>, d: Seq<u8>, authority: Seq<u8>, smart_account: Seq<u8>, quorum: Seq<u8>, nonce: u64)
    -> Result<(), PqSmartAccountError> {
    if d.len() != FALCON_SIGNATURE_BUFFER_LEN || d.subrange(0, 8) != FALCON_SIGNATURE_DISCRIMINATOR@ || d[8] != VERSION || d[10] != 0 || d[11] != 0
        || d.subrange(12, 44) != authority || d.subrange(44, 76) != smart_account || d.subrange(76, 108) != quorum || u64_at(d, 108) != nonce {
        Err(PqSmartAccountError::InvalidSignatureBuffer)
    } else {
        falcon_buffer_pda_check(program_id, authority, smart_account, quorum, nonce, buffer, d[9])
    }
}

/// Checks a Falcon signature buffer.
pub fn validate_falcon_signature_buffer_header(program_id: &[u8; 32], buffer: &[u8; 32], data: &[u8], authority: &[u8; 32], smart_account: &[u8; 32],
    quorum: &[u8; 32], nonce: u64) -> (res: Result<(), PqSmartAccountError>)
    ensures
        res == falcon_buffer_check(program_id@, buffer@, data@, authority@, smart_account@, quorum@, nonce),
{
    if data.len() != FALCON_SIGNATURE_BUFFER_LEN || !bytes_eq(&data[0..8], FALCON_SIGNATURE_DISCRIMINATOR.as_slice()) || data[8] != VERSION
        || data[10] != 0 || data[11] != 0 || !bytes_eq(&data[12..44], authority.as_slice()) || !bytes_eq(&data[44..76], smart_account.as_slice())
        || !bytes_eq(&data[76..108], quorum.as_slice()) {
        return Err(PqSmartAccountError::InvalidSignatureBuffer);
    }
    match read_u64(data, 108) {
        Some(v) => if v != nonce { return Err(PqSmartAccountError::InvalidSignatureBuffer); },
        None => { return Err(PqSmartAccountError::InvalidSignatureBuffer); },
    }
    validate_falcon_signature_buffer_pda(program_id, authority, smart_account, quorum, nonce, buffer, data[9])
}

/// A complete buffered signature: the checks pass and all 666 bytes were written.
pub open spec fn read_falcon_buffer_outcome(program_id: Seq<u8>, buffer: Seq<u8>, d: Seq<u8>, authority: Seq<u8>, smart_account: Seq<u8>, quorum: Seq<u8>,
    nonce: u64) -> Result<Seq<u8>, PqSmartAccountError> {
    match falcon_buffer_check(program_id, buffer, d, authority, smart_account, quorum, nonce) {
        Err(e) => Err(e),
        Ok(_) => if spec_u16_from_le_bytes(d.subrange(116, 118)) != FALCON_SIGNATURE_LEN {
            Err(PqSmartAccountError::InvalidSignatureBuffer)
        } else {
            Ok(d.subrange(118, 784))
        },
    }
}

/// Reads a complete buffered Falcon signature.
pub fn read_falcon_signature_buffer(program_id: &[u8; 32], buffer: &[u8; 32], data: &[u8], authority: &[u8; 32], smart_account: &[u8; 32],
    quorum: &[u8; 32], nonce: u64) -> (res: Result<Vec<u8>, PqSmartAccountError>)
    ensures
        match res {
            Ok(s) => read_falcon_buffer_outcome(program_id@, buffer@, data@, authority@, smart_account@, quorum@, nonce) == Ok::<Seq<u8>, PqSmartAccountError>(s@),
            Err(e) => read_falcon_buffer_outcome(program_id@, buffer@, data@, authority@, smart_account@, quorum@, nonce) == Err::<Seq<u8>, PqSmartAccountError>(e),
        },
{
    validate_falcon_signature_buffer_header(program_id, buffer, data, authority, smart_account, quorum, nonce)?;
    match read_u16(data, SIGBUF_WRITTEN_OFFSET) {
        Some(w) => if w as usize != FALCON_SIGNATURE_LEN { return Err(PqSmartAccountError::InvalidSignatureBuffer); },
        None => { return Err(PqSmartAccountError::InvalidSignatureBuffer); },
    }
    let mut out: Vec<u8> = Vec::new();
    append_bytes(&mut out, &data[118..784]);
    Ok(out)
}

/// Closes a Falcon signature buffer into `destination`: returns the destination's new
/// balance and zeroes the whole buffer (the runtime empties its lamports).
pub fn close_falcon_signature_buffer(buffer_data: &mut [u8], buffer_lamports: u64, destination_lamports: u64) -> (res: Result<u64, PqSmartAccountError>)
    ensures
        match res {
            Ok(total) => total == buffer_lamports + destination_lamports && final(buffer_data)@ == Seq::new(old(buffer_data)@.len(), |i: int| 0u8),
            Err(e) => e == PqSmartAccountError::ArithmeticOverflow && buffer_lamports + destination_lamports > u64::MAX && final(buffer_data)@ == old(buffer_data)@,
        },
{
    let total = match destination_lamports.checked_add(buffer_lamports) {
        Some(t) => t,
        None => { return Err(PqSmartAccountError::ArithmeticOverflow); },
    };
    let len = buffer_data.len();
    fill_bytes(buffer_data, 0, len, 0);
    proof {
        assert(buffer_data@ =~= Seq::new(old(buffer_data)@.len(), |i: int| 0u8));
    }
    Ok(total)
}

// ---------------------------------------------------------------------------------------
// Checks shared by the transfers.

/// What a SOL transfer changes once approved.
#[derive(Clone, Copy, Debug)]
pub struct PreparedTransfer {
    pub remaining_lamports: u64,
    pub next_destination_lamports: u64,
    pub next_spend_count: u64,
    pub action_domain: [u8; 32],
    pub action_hash: [u8; 32],
}

/// The balance and counter checks of a SOL transfer out of an account with data `d`.
pub open spec fn prepare_transfer_check(d: Seq<u8>, lamports: u64, smart_lamports: u64, destination_lamports: u64, rent_minimum: u64)
    -> Result<(), PqSmartAccountError> {
    if lamports == 0 {
        Err(PqSmartAccountError::InvalidInstructionData)
    } else if d.len() < 116 {
        Err(PqSmartAccountError::InvalidInstructionData)
    } else if smart_lamports < lamports || smart_lamports - lamports < rent_minimum {
        Err(PqSmartAccountError::InsufficientSmartAccountFunds)
    } else if destination_lamports + lamports > u64::MAX || spend_count(d) == u64::MAX {
        Err(PqSmartAccountError::ArithmeticOverflow)
    } else {
        Ok(())
    }
}

/// Prepares a SOL transfer: the balances after it, the next spend count, and the action the
/// quorum must approve.
pub fn prepare_transfer(program_id: &[u8; 32], authority: &[u8; 32], smart_account: &[u8; 32], destination: &[u8; 32], smart_data: &[u8], lamports: u64,
    smart_lamports: u64, destination_lamports: u64, rent_minimum: u64) -> (res: Result<PreparedTransfer, PqSmartAccountError>)
    ensures
        match res {
            Ok(t) => prepare_transfer_check(smart_data@, lamports, smart_lamports, destination_lamports, rent_minimum) is Ok
                && t.remaining_lamports == smart_lamports - lamports && t.next_destination_lamports == destination_lamports + lamports
                && t.next_spend_count == spend_count(smart_data@) + 1 && t.action_domain@ == SMART_TRANSFER_DOMAIN@
                && t.action_hash@ == spec_sha256(sol_transfer_preimage(program_id@, smart_account@, authority@, destination@, lamports, spend_count(smart_data@))),
            Err(e) => prepare_transfer_check(smart_data@, lamports, smart_lamports, destination_lamports, rent_minimum) == Err::<(), PqSmartAccountError>(e),
        },
{
    if lamports == 0 {
        return Err(PqSmartAccountError::InvalidInstructionData);
    }
    let count = match read_u64(smart_data, SPEND_COUNT_OFFSET) { Some(v) => v, None => { return Err(PqSmartAccountError::InvalidInstructionData); } };
    let action_domain = smart_transfer_domain();
    let action_hash = smart_transfer_hash(program_id, smart_account, authority, destination, lamports, count);
    let remaining = match smart_lamports.checked_sub(lamports) {
        Some(r) => r,
        None => { return Err(PqSmartAccountError::InsufficientSmartAccountFunds); },
    };
    if remaining < rent_minimum {
        return Err(PqSmartAccountError::InsufficientSmartAccountFunds);
    }
    let next_destination = match destination_lamports.checked_add(lamports) {
        Some(n) => n,
        None => { return Err(PqSmartAccountError::ArithmeticOverflow); },
    };
    let next_count = match count.checked_add(1) {
        Some(n) => n,
        None => { return Err(PqSmartAccountError::ArithmeticOverflow); },
    };
    Ok(PreparedTransfer { remaining_lamports: remaining, next_destination_lamports: next_destination, next_spend_count: next_count, action_domain, action_hash })
}

/// Records the spend after an approved transfer.
pub fn finish_transfer(smart_data: &mut [u8], next_spend_count: u64)
    requires
        old(smart_data)@.len() == SMART_ACCOUNT_LEN,
    ensures
        final(smart_data)@ == spliced(old(smart_data)@, 108, spec_u64_to_le_bytes(next_spend_count)),
{
    let bytes = u64_to_le_bytes(next_spend_count);
    write_bytes(smart_data, SPEND_COUNT_OFFSET, bytes.as_slice());
}

/// The token checks of a classic SPL transfer out of the smart account.
pub open spec fn token_accounts_check(smart_account: Seq<u8>, mint: Seq<u8>, mint_data: Seq<u8>, source_data: Seq<u8>, destination_data: Seq<u8>,
    amount: u64, decimals: u8) -> bool {
    &&& mint_data.len() == MINT_LEN
    &&& mint_data[45] == 1
    &&& mint_data[44] == decimals
    &&& source_data.len() == TOKEN_ACCOUNT_LEN
    &&& destination_data.len() == TOKEN_ACCOUNT_LEN
    &&& source_data[108] == 1
    &&& destination_data[108] == 1
    &&& source_data.subrange(0, 32) == mint
    &&& destination_data.subrange(0, 32) == mint
    &&& source_data.subrange(32, 64) == smart_account
    &&& u64_at(source_data, 64) >= amount
}

/// Checks the mint and both token accounts: initialized, same mint, the source owned by the
/// smart account and holding at least `amount`, and `decimals` matching the mint.
pub fn validate_classic_token_accounts(smart_account: &[u8; 32], mint: &[u8; 32], mint_data: &[u8], source_data: &[u8], destination_data: &[u8],
    amount: u64, decimals: u8) -> (res: Result<(), PqSmartAccountError>)
    ensures
        res is Ok <==> token_accounts_check(smart_account@, mint@, mint_data@, source_data@, destination_data@, amount, decimals),
        res is Err ==> res == Err::<(), PqSmartAccountError>(PqSmartAccountError::InvalidTokenAccount),
{
    if mint_data.len() != MINT_LEN || mint_data[45] != 1 || mint_data[44] != decimals {
        return Err(PqSmartAccountError::InvalidTokenAccount);
    }
    if source_data.len() != TOKEN_ACCOUNT_LEN || destination_data.len() != TOKEN_ACCOUNT_LEN || source_data[108] != 1 || destination_data[108] != 1 {
        return Err(PqSmartAccountError::InvalidTokenAccount);
    }
    if !bytes_eq(&source_data[0..32], mint.as_slice()) || !bytes_eq(&destination_data[0..32], mint.as_slice())
        || !bytes_eq(&source_data[32..64], smart_account.as_slice()) {
        return Err(PqSmartAccountError::InvalidTokenAccount);
    }
    match read_u64(source_data, 64) {
        Some(v) => if v < amount { return Err(PqSmartAccountError::InvalidTokenAccount); },
        None => { return Err(PqSmartAccountError::InvalidTokenAccount); },
    }
    Ok(())
}

/// The SPL `TransferChecked` instruction data.
pub open spec fn transfer_checked_ix(amount: u64, decimals: u8) -> Seq<u8> {
    seq![SPL_TOKEN_TRANSFER_CHECKED_TAG] + spec_u64_to_le_bytes(amount) + seq![decimals]
}

/// Builds the SPL `TransferChecked` instruction data.
pub fn build_transfer_checked_ix(amount: u64, decimals: u8) -> (out: Vec<u8>)
    ensures
        out@ == transfer_checked_ix(amount, decimals),
{
    let mut out: Vec<u8> = Vec::new();
    out.push(SPL_TOKEN_TRANSFER_CHECKED_TAG);
    let a = u64_to_le_bytes(amount);
    append_bytes(&mut out, a.as_slice());
    out.push(decimals);
    proof {
        assert(out@ =~= transfer_checked_ix(amount, decimals));
    }
    out
}

/// A SOL transfer moves lamports and creates none; the account keeps its rent-exempt minimum
/// and the spend count advances by one, so the approved action hash is never asked again.
pub proof fn law_sol_transfer_conserves(d: Seq<u8>, lamports: u64, smart_lamports: u64, destination_lamports: u64, rent_minimum: u64)
    requires
        prepare_transfer_check(d, lamports, smart_lamports, destination_lamports, rent_minimum) is Ok,
    ensures
        (smart_lamports - lamports) + (destination_lamports + lamports) == smart_lamports + destination_lamports,
        smart_lamports - lamports >= rent_minimum,
        lamports > 0,
        spend_count(d) < u64::MAX,
{
}

/// Recording a spend changes only the spend count, which reads back as written.
pub proof fn law_spend_recorded(d: Seq<u8>, next: u64)
    requires
        d.len() == SMART_ACCOUNT_LEN,
    ensures
        spend_count(spliced(d, 108, spec_u64_to_le_bytes(next))) == next,
        spliced(d, 108, spec_u64_to_le_bytes(next)).subrange(0, 108) == d.subrange(0, 108),
{
    lemma_auto_spec_u64_to_from_le_bytes();
    let e = spliced(d, 108, spec_u64_to_le_bytes(next));
    assert(e.subrange(108, 116) =~= spec_u64_to_le_bytes(next));
    assert(e.subrange(0, 108) =~= d.subrange(0, 108));
}

/// A smart account passes its checks only when it is a version-1 smart account of full size
/// storing the given authority and (quorum program, quorum) pair when they are given, and
/// sits at the smart account address of the stored authority, quorum program and quorum under
/// its stored bump.
pub proof fn law_smart_state_requirements(program_id: Seq<u8>, smart_account: Seq<u8>, d: Seq<u8>, authority: Option<Seq<u8>>,
    quorum: Option<(Seq<u8>, Seq<u8>)>)
    ensures
        smart_state_check(program_id, smart_account, d, authority, quorum) is Ok ==> {
            &&& d.len() == SMART_ACCOUNT_LEN
            &&& d.subrange(0, 8) == SMART_ACCOUNT_DISCRIMINATOR@
            &&& d[8] == VERSION
            &&& authority matches Some(a) ==> d.subrange(12, 44) == a
            &&& quorum matches Some((p, q)) ==> d.subrange(44, 76) == p && d.subrange(76, 108) == q
            &&& smart_pda_check(program_id, d.subrange(12, 44), d.subrange(44, 76), d.subrange(76, 108), smart_account, d[9]) is Ok
        },
{
}

/// A buffered Falcon signature is read only from a buffer of this authority, smart account,
/// quorum and nonce, at its per-nonce address, with all 666 signature bytes written; what is
/// read is exactly those bytes.
pub proof fn law_falcon_buffer_requirements(program_id: Seq<u8>, buffer: Seq<u8>, d: Seq<u8>, authority: Seq<u8>, smart_account: Seq<u8>,
    quorum: Seq<u8>, nonce: u64)
    ensures
        read_falcon_buffer_outcome(program_id, buffer, d, authority, smart_account, quorum, nonce) matches Ok(sig) ==> {
            &&& d.len() == FALCON_SIGNATURE_BUFFER_LEN
            &&& d.subrange(0, 8) == FALCON_SIGNATURE_DISCRIMINATOR@
            &&& d.subrange(12, 44) == authority
            &&& d.subrange(44, 76) == smart_account
            &&& d.subrange(76, 108) == quorum
            &&& u64_at(d, 108) == nonce
            &&& falcon_buffer_pda_check(program_id, authority, smart_account, quorum, nonce, buffer, d[9]) is Ok
            &&& spec_u16_from_le_bytes(d.subrange(116, 118)) == FALCON_SIGNATURE_LEN
            &&& sig == d.subrange(118, 784)
            &&& sig.len() == FALCON_SIGNATURE_LEN
        },
{
}

/// A SOL transfer passes its balance checks only for a positive amount that leaves the
/// smart account at or above its rent-exempt minimum, fits in the destination's balance, and
/// leaves room to count the spend.
pub proof fn law_prepare_transfer_requirements(d: Seq<u8>, lamports: u64, smart_lamports: u64, destination_lamports: u64, rent_minimum: u64)
    ensures
        prepare_transfer_check(d, lamports, smart_lamports, destination_lamports, rent_minimum) is Ok ==> {
            &&& lamports > 0
            &&& d.len() >= 116
            &&& smart_lamports >= lamports + rent_minimum
            &&& destination_lamports + lamports <= u64::MAX
            &&& spend_count(d) < u64::MAX
        },
        lamports > 0 && d.len() >= 116 && smart_lamports < lamports + rent_minimum
            ==> prepare_transfer_check(d, lamports, smart_lamports, destination_lamports, rent_minimum)
                == Err::<(), PqSmartAccountError>(PqSmartAccountError::InsufficientSmartAccountFunds),
{
}

/// A SOL transfer's signed preimage binds program, smart account, authority, destination,
/// amount and spend count: two preimages are equal only when all of these are.
pub proof fn law_sol_preimage_binds_fields(program_id: Seq<u8>, smart_account: Seq<u8>, authority: Seq<u8>, destination: Seq<u8>, lamports: u64,
    count: u64, program_id2: Seq<u8>, smart_account2: Seq<u8>, authority2: Seq<u8>, destination2: Seq<u8>, lamports2: u64, count2: u64)
    requires
        program_id.len() == 32, smart_account.len() == 32, authority.len() == 32, destination.len() == 32,
        program_id2.len() == 32, smart_account2.len() == 32, authority2.len() == 32, destination2.len() == 32,
        sol_transfer_preimage(program_id, smart_account, authority, destination, lamports, count)
            == sol_transfer_preimage(program_id2, smart_account2, authority2, destination2, lamports2, count2),
    ensures
        program_id == program_id2, smart_account == smart_account2, authority == authority2, destination == destination2,
        lamports == lamports2, count == count2,
{
    lemma_auto_spec_u64_to_from_le_bytes();
    let p = sol_transfer_preimage(program_id, smart_account, authority, destination, lamports, count);
    let q = sol_transfer_preimage(program_id2, smart_account2, authority2, destination2, lamports2, count2);
    assert(p.subrange(32, 64) =~= program_id && q.subrange(32, 64) =~= program_id2);
    assert(p.subrange(64, 96) =~= smart_account && q.subrange(64, 96) =~= smart_account2);
    assert(p.subrange(96, 128) =~= authority && q.subrange(96, 128) =~= authority2);
    assert(p.subrange(128, 160) =~= destination && q.subrange(128, 160) =~= destination2);
    assert(p.subrange(160, 168) =~= spec_u64_to_le_bytes(lamports) && q.subrange(160, 168) =~= spec_u64_to_le_bytes(lamports2));
    assert(p.subrange(168, 176) =~= spec_u64_to_le_bytes(count) && q.subrange(168, 176) =~= spec_u64_to_le_bytes(count2));
}

/// An SPL transfer's signed preimage binds program, smart account, authority, token program,
/// source, mint, destination, amount, decimals and spend count: two preimages are equal only
/// when all of these are.
pub proof fn law_token_preimage_binds_fields(i: SmartTokenTransferHashInput, j: SmartTokenTransferHashInput)
    requires
        token_transfer_preimage(i) == token_transfer_preimage(j),
    ensures
        i.program_id@ == j.program_id@, i.smart_account@ == j.smart_account@, i.authority@ == j.authority@,
        i.token_program@ == j.token_program@, i.source_token@ == j.source_token@, i.mint@ == j.mint@,
        i.destination_token@ == j.destination_token@, i.amount == j.amount, i.decimals == j.decimals, i.spend_count == j.spend_count,
{
    lemma_auto_spec_u64_to_from_le_bytes();
    let p = token_transfer_preimage(i);
    let q = token_transfer_preimage(j);
    assert(p.subrange(32, 64) =~= i.program_id@ && q.subrange(32, 64) =~= j.program_id@);
    assert(p.subrange(64, 96) =~= i.smart_account@ && q.subrange(64, 96) =~= j.smart_account@);
    assert(p.subrange(96, 128) =~= i.authority@ && q.subrange(96, 128) =~= j.authority@);
    assert(p.subrange(128, 160) =~= i.token_program@ && q.subrange(128, 160) =~= j.token_program@);
    assert(p.subrange(160, 192) =~= i.source_token@ && q.subrange(160, 192) =~= j.source_token@);
    assert(p.subrange(192, 224) =~= i.mint@ && q.subrange(192, 224) =~= j.mint@);
    assert(p.subrange(224, 256) =~= i.destination_token@ && q.subrange(224, 256) =~= j.destination_token@);
    assert(p.subrange(256, 264) =~= spec_u64_to_le_bytes(i.amount) && q.subrange(256, 264) =~= spec_u64_to_le_bytes(j.amount));
    assert(p[264] == i.decimals && q[264] == j.decimals);
    assert(p.subrange(265, 273) =~= spec_u64_to_le_bytes(i.spend_count) && q.subrange(265, 273) =~= spec_u64_to_le_bytes(j.spend_count));
}

} // verus!
