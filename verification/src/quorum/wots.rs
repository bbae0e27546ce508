//! One-time Winternitz signatures (w = 16, Keccak-256 chains, 67 chains with a three-digit
//! checksum), and the buffer a signature is uploaded into.
use vstd::prelude::*;
use vstd::bytes::{spec_u64_from_le_bytes, spec_u64_to_le_bytes, spec_u16_from_le_bytes, spec_u16_to_le_bytes, u64_to_le_bytes, u16_to_le_bytes};
use crate::digest::{keccak256, spec_keccak256};
use crate::mldsa44::protocol::append_bytes;
use crate::runtime::{AccountHeader, ProgramFailure, keys_eq, bytes_eq, read_u64, read_u16, write_bytes, fill_bytes, spliced};
use crate::quorum::state::{
    PqQuorumAuthError, qfail, VERSION, WINTERNITZ_SIGNATURE_SEED, nonce_seeds, pda_check, validate_nonce_pda,
    validate_quorum_authority, quorum_authority_check,
};

verus! {

pub const WOTS16_N: usize = 32;
pub const WOTS16_LEN1: usize = 64;
pub const WOTS16_LEN: usize = 67;
pub const WOTS16_MAX_DIGIT: u8 = 15;
pub const WINTERNITZ_SIGNATURE_LEN: usize = 2144;
/// `b"pq-wots16-chain-v1"`
pub const WOTS_CHAIN_TAG: [u8; 18] = [112, 113, 45, 119, 111, 116, 115, 49, 54, 45, 99, 104, 97, 105, 110, 45, 118, 49];
/// `b"pq-wots16-root-v1"`
pub const WOTS_ROOT_TAG: [u8; 17] = [112, 113, 45, 119, 111, 116, 115, 49, 54, 45, 114, 111, 111, 116, 45, 118, 49];
/// `b"WOTSIG01"`
pub const WINTERNITZ_SIGNATURE_DISCRIMINATOR: [u8; 8] = [87, 79, 84, 83, 73, 71, 48, 49];

pub const SIGBUF_BUMP_OFFSET: usize = 9;
pub const SIGBUF_WRITTEN_OFFSET: usize = 84;
pub const SIGBUF_DATA_OFFSET: usize = 86;
pub const WINTERNITZ_SIGNATURE_BUFFER_LEN: usize = 2230;

// ---------------------------------------------------------------------------------------
// Digits.

/// Base-16 digit `i` of a digest, most significant nibble first.
pub open spec fn nibble(h: Seq<u8>, i: int) -> int {
    if i % 2 == 0 { h[i / 2] as int / 16 } else { h[i / 2] as int % 16 }
}

/// `sum_{i < n} (15 - nibble(h, i))`.
pub open spec fn nibble_checksum(h: Seq<u8>, n: nat) -> int
    decreases n,
{
    if n == 0 { 0 } else { nibble_checksum(h, (n - 1) as nat) + (15 - nibble(h, n - 1)) }
}

/// The 67 digits signed for a message digest: 64 message digits, then the checksum in three
/// digits, most significant first.
pub open spec fn digits_of_digest(h: Seq<u8>) -> Seq<u8> {
    let cs = nibble_checksum(h, 64);
    Seq::new(67, |i: int|
        if i < 64 { nibble(h, i) as u8 }
        else if i == 64 { ((cs / 256) % 16) as u8 }
        else if i == 65 { ((cs / 16) % 16) as u8 }
        else { (cs % 16) as u8 })
}

pub open spec fn spec_wots16_digits(message: Seq<u8>) -> Seq<u8> {
    digits_of_digest(spec_keccak256(message))
}

proof fn lemma_checksum_bounds(h: Seq<u8>, n: nat)
    requires
        n <= 64,
        h.len() == 32,
    ensures
        0 <= nibble_checksum(h, n) <= 15 * n,
    decreases n,
{
    if n > 0 {
        lemma_checksum_bounds(h, (n - 1) as nat);
        assert(0 <= nibble(h, n - 1) <= 15);
    }
}

/// The digits signed for `message`. The checksum digits spell out how far the message
/// digits are below their maximum, so raising any message digit lowers the checksum.
pub fn wots16_digits(message: &[u8]) -> (digits: Vec<u8>)
    ensures
        digits@ == spec_wots16_digits(message@),
        forall|i: int| 0 <= i < 67 ==> #[trigger] digits@[i] <= 15,
        256 * (digits@[64] as int) + 16 * (digits@[65] as int) + (digits@[66] as int) == nibble_checksum(spec_keccak256(message@), 64),
        nibble_checksum(spec_keccak256(message@), 64) <= 960,
{
    let digest = keccak256(message);
    let ghost h = digest@;
    let mut digits: Vec<u8> = Vec::new();
    let mut checksum: u16 = 0;
    let mut b: usize = 0;
    while b < 32
        invariant
            h == digest@,
            h.len() == 32,
            b <= 32,
            digits@.len() == 2 * b,
            forall|i: int| 0 <= i < 2 * b ==> #[trigger] digits@[i] as int == nibble(h, i),
            checksum as int == nibble_checksum(h, (2 * b) as nat),
            checksum <= 30 * b,
        decreases 32 - b,
    {
        let byte = digest[b];
        let high = byte >> 4u8;
        let low = byte & 0x0f;
        proof {
            assert(high == byte / 16 && low == byte % 16) by (bit_vector)
                requires high == byte >> 4u8, low == byte & 0x0f;
            assert(nibble(h, 2 * b as int) == byte as int / 16);
            assert(nibble(h, 2 * b + 1) == byte as int % 16);
        }
        digits.push(high);
        digits.push(low);
        checksum = checksum + (15 - high) as u16 + (15 - low) as u16;
        proof {
            assert(nibble_checksum(h, (2 * b + 1) as nat) == nibble_checksum(h, (2 * b) as nat) + (15 - nibble(h, 2 * b as int)));
            assert(nibble_checksum(h, (2 * b + 2) as nat) == nibble_checksum(h, (2 * b) as nat) + (15 - nibble(h, 2 * b as int)) + (15 - nibble(h, 2 * b + 1)));
        }
        b += 1;
    }
    proof {
        lemma_checksum_bounds(h, 64);
    }
    digits.push(((checksum >> 8u16) & 0x0f) as u8);
    digits.push(((checksum >> 4u16) & 0x0f) as u8);
    digits.push((checksum & 0x0f) as u8);
    proof {
        let cs = checksum;
        assert(((cs >> 8u16) & 0x0f) == (cs / 256) % 16 && ((cs >> 4u16) & 0x0f) == (cs / 16) % 16 && (cs & 0x0f) == cs % 16) by (bit_vector);
        assert(digits@ =~= spec_wots16_digits(message@));
        assert(cs <= 960 ==> 256 * ((cs / 256) % 16) + 16 * ((cs / 16) % 16) + cs % 16 == cs) by (nonlinear_arith);
    }
    digits
}

// ---------------------------------------------------------------------------------------
// Chains and root.

/// One hash step of chain `index` at position `step`.
pub open spec fn chain_step(index: u8, step: int, value: Seq<u8>) -> Seq<u8> {
    spec_keccak256(WOTS_CHAIN_TAG@ + seq![index, step as u8] + value)
}

/// `steps` hash steps of chain `index` starting at position `start`.
pub open spec fn spec_chain(value: Seq<u8>, index: u8, start: int, steps: nat) -> Seq<u8>
    decreases steps,
{
    if steps == 0 { value } else { spec_chain(chain_step(index, start, value), index, start + 1, (steps - 1) as nat) }
}

/// Walks chain `index` from position `start_step` for `steps` steps.
pub fn wots16_chain(start: &[u8], chain_index: u8, start_step: u8, steps: u8) -> (out: [u8; 32])
    requires
        start@.len() == 32,
        start_step + steps <= 255,
    ensures
        out@ == spec_chain(start@, chain_index, start_step as int, steps as nat),
{
    let mut value: [u8; 32] = [0u8; 32];
    let mut k: usize = 0;
    while k < 32
        invariant
            start@.len() == 32,
            k <= 32,
            forall|i: int| 0 <= i < k ==> #[trigger] value@[i] == start@[i],
        decreases 32 - k,
    {
        value[k] = start[k];
        k += 1;
    }
    proof {
        assert(value@ =~= start@);
    }
    let mut done: u8 = 0;
    while done < steps
        invariant
            done <= steps,
            start_step + steps <= 255,
            spec_chain(start@, chain_index, start_step as int, steps as nat)
                == spec_chain(value@, chain_index, start_step + done, (steps - done) as nat),
        decreases steps - done,
    {
        let step: u8 = start_step + done;
        let mut input: Vec<u8> = Vec::new();
        append_bytes(&mut input, WOTS_CHAIN_TAG.as_slice());
        input.push(chain_index);
        input.push(step);
        append_bytes(&mut input, value.as_slice());
        proof {
            assert(input@ =~= WOTS_CHAIN_TAG@ + seq![chain_index, step] + value@);
        }
        value = keccak256(input.as_slice());
        done += 1;
    }
    value
}

/// One step of the public root: absorbs the public end of chain `index`.
pub open spec fn root_step(previous: Seq<u8>, index: u8, element: Seq<u8>) -> Seq<u8> {
    spec_keccak256(WOTS_ROOT_TAG@ + seq![index] + previous + element)
}

/// Folds the public end of chain `index` into the running root.
pub fn wots16_root_step(previous_root: &[u8; 32], chain_index: u8, element: &[u8; 32]) -> (out: [u8; 32])
    ensures
        out@ == root_step(previous_root@, chain_index, element@),
{
    let mut input: Vec<u8> = Vec::new();
    append_bytes(&mut input, WOTS_ROOT_TAG.as_slice());
    input.push(chain_index);
    append_bytes(&mut input, previous_root.as_slice());
    append_bytes(&mut input, element.as_slice());
    proof {
        assert(input@ =~= WOTS_ROOT_TAG@ + seq![chain_index] + previous_root@ + element@);
    }
    keccak256(input.as_slice())
}

/// The public end of chain `i` reached from signature element `i`.
pub open spec fn public_element(sig: Seq<u8>, digits: Seq<u8>, i: int) -> Seq<u8> {
    spec_chain(sig.subrange(32 * i, 32 * i + 32), i as u8, digits[i] as int, (15 - digits[i]) as nat)
}

/// The root after absorbing the first `n` chains.
pub open spec fn root_prefix(sig: Seq<u8>, digits: Seq<u8>, n: nat) -> Seq<u8>
    decreases n,
{
    if n == 0 {
        spec_keccak256(WOTS_ROOT_TAG@)
    } else {
        root_step(root_prefix(sig, digits, (n - 1) as nat), (n - 1) as u8, public_element(sig, digits, n - 1))
    }
}

/// The public root that a signature over `message` leads to, if it has the right length.
pub open spec fn spec_recover_root(sig: Seq<u8>, message: Seq<u8>) -> Option<Seq<u8>> {
    if sig.len() != WINTERNITZ_SIGNATURE_LEN { None } else { Some(root_prefix(sig, spec_wots16_digits(message), 67)) }
}

/// Recovers the public root from a signature over `payload`.
pub fn recover_wots16_root(signature: &[u8], payload: &[u8]) -> (res: Result<[u8; 32], PqQuorumAuthError>)
    ensures
        match res {
            Ok(root) => spec_recover_root(signature@, payload@) == Some(root@),
            Err(e) => spec_recover_root(signature@, payload@) is None && e == PqQuorumAuthError::InvalidWinternitzSignature,
        },
{
    let digits = wots16_digits(payload);
    let mut root = keccak256(WOTS_ROOT_TAG.as_slice());
    if signature.len() != WINTERNITZ_SIGNATURE_LEN {
        return Err(PqQuorumAuthError::InvalidWinternitzSignature);
    }
    let ghost ds = digits@;
    let mut index: usize = 0;
    while index < WOTS16_LEN
        invariant
            ds == digits@,
            ds == spec_wots16_digits(payload@),
            forall|i: int| 0 <= i < 67 ==> #[trigger] ds[i] <= 15,
            signature@.len() == 2144,
            index <= 67,
            root@ == root_prefix(signature@, ds, index as nat),
        decreases 67 - index,
    {
        let element = &signature[index * 32..index * 32 + 32];
        let digit = digits[index];
        let public_end = wots16_chain(element, index as u8, digit, 15 - digit);
        root = wots16_root_step(&root, index as u8, &public_end);
        index += 1;
    }
    Ok(root)
}

// ---------------------------------------------------------------------------------------
// Signature buffers.

/// The 86-byte header of an upload buffer: discriminator, version, bump, two reserved zero
/// bytes, authority, quorum, quorum nonce, bytes written so far (zero).
pub open spec fn buffer_header(disc: Seq<u8>, bump: u8, authority: Seq<u8>, quorum: Seq<u8>, nonce: u64) -> Seq<u8> {
    disc + seq![VERSION, bump, 0u8, 0u8] + authority + quorum + spec_u64_to_le_bytes(nonce) + spec_u16_to_le_bytes(0)
}

/// Writes a buffer header and zeroes the payload area.
pub fn write_buffer_header(data: &mut [u8], discriminator: &[u8], bump: u8, authority: &[u8], quorum: &[u8], nonce: u64)
    requires
        discriminator@.len() == 8,
        authority@.len() == 32,
        quorum@.len() == 32,
        old(data)@.len() >= 86,
    ensures
        final(data)@ == buffer_header(discriminator@, bump, authority@, quorum@, nonce) + Seq::new((old(data)@.len() - 86) as nat, |i: int| 0u8),
{
    write_bytes(data, 0, discriminator);
    data[8] = VERSION;
    data[SIGBUF_BUMP_OFFSET] = bump;
    data[10] = 0;
    data[11] = 0;
    write_bytes(data, 12, authority);
    write_bytes(data, 44, quorum);
    let nonce_bytes = u64_to_le_bytes(nonce);
    write_bytes(data, 76, nonce_bytes.as_slice());
    let written = u16_to_le_bytes(0);
    write_bytes(data, SIGBUF_WRITTEN_OFFSET, written.as_slice());
    let len = data.len();
    fill_bytes(data, SIGBUF_DATA_OFFSET, len - SIGBUF_DATA_OFFSET, 0);
    proof {
        assert(data@ =~= buffer_header(discriminator@, bump, authority@, quorum@, nonce) + Seq::new((old(data)@.len() - 86) as nat, |i: int| 0u8));
    }
}

/// Writes the header of a Winternitz signature buffer.
pub fn write_signature_buffer_header(data: &mut [u8], bump: u8, authority: &[u8], quorum: &[u8], nonce: u64) -> (res: Result<(), ProgramFailure>)
    ensures
        res is Ok <==> (old(data)@.len() == WINTERNITZ_SIGNATURE_BUFFER_LEN && authority@.len() == 32 && quorum@.len() == 32),
        res is Err ==> res == Err::<(), ProgramFailure>(ProgramFailure::AccountDataTooSmall) && final(data)@ == old(data)@,
        res is Ok ==> final(data)@ == buffer_header(WINTERNITZ_SIGNATURE_DISCRIMINATOR@, bump, authority@, quorum@, nonce)
            + Seq::new(2144, |i: int| 0u8),
{
    if data.len() != WINTERNITZ_SIGNATURE_BUFFER_LEN || authority.len() != 32 || quorum.len() != 32 {
        return Err(ProgramFailure::AccountDataTooSmall);
    }
    write_buffer_header(data, WINTERNITZ_SIGNATURE_DISCRIMINATOR.as_slice(), bump, authority, quorum, nonce);
    Ok(())
}

/// The header fields every upload buffer check compares.
pub open spec fn buffer_fields_match(d: Seq<u8>, disc: Seq<u8>, authority: Seq<u8>, quorum: Seq<u8>) -> bool {
    &&& d.len() >= 86
    &&& d.subrange(0, 8) == disc
    &&& d[8] == VERSION
    &&& d[10] == 0
    &&& d[11] == 0
    &&& d.subrange(12, 44) == authority
    &&& d.subrange(44, 76) == quorum
}

/// The stored quorum nonce of a buffer.
pub open spec fn buffer_nonce(d: Seq<u8>) -> u64 {
    spec_u64_from_le_bytes(d.subrange(76, 84))
}

/// The number of payload bytes written so far.
pub open spec fn buffer_written(d: Seq<u8>) -> u16 {
    spec_u16_from_le_bytes(d.subrange(84, 86))
}

pub fn check_buffer_fields(data: &[u8], discriminator: &[u8], authority: &[u8; 32], quorum: &[u8; 32]) -> (b: bool)
    ensures
        b == buffer_fields_match(data@, discriminator@, authority@, quorum@),
{
    data.len() >= 86 && bytes_eq(&data[0..8], discriminator) && data[8] == VERSION && data[10] == 0 && data[11] == 0
        && bytes_eq(&data[12..44], authority.as_slice()) && bytes_eq(&data[44..76], quorum.as_slice())
}

/// The checks of a Winternitz signature buffer for quorum nonce `nonce`.
pub open spec fn signature_buffer_check(program_id: Seq<u8>, authority: Seq<u8>, quorum: Seq<u8>, nonce: u64, buffer: Seq<u8>, d: Seq<u8>) -> Result<(), PqQuorumAuthError> {
    if d.len() != WINTERNITZ_SIGNATURE_BUFFER_LEN || !buffer_fields_match(d, WINTERNITZ_SIGNATURE_DISCRIMINATOR@, authority, quorum)
        || buffer_nonce(d) != nonce {
        Err(PqQuorumAuthError::InvalidSignatureBuffer)
    } else {
        pda_check(nonce_seeds(WINTERNITZ_SIGNATURE_SEED@, authority, quorum, nonce), program_id, buffer, d[9])
    }
}

/// Checks a Winternitz signature buffer.
pub fn validate_signature_buffer_header(program_id: &[u8; 32], authority: &[u8; 32], quorum: &[u8; 32], nonce: u64, buffer: &[u8; 32], data: &[u8]) -> (res: Result<(), PqQuorumAuthError>)
    ensures
        res == signature_buffer_check(program_id@, authority@, quorum@, nonce, buffer@, data@),
{
    if data.len() != WINTERNITZ_SIGNATURE_BUFFER_LEN || !check_buffer_fields(data, WINTERNITZ_SIGNATURE_DISCRIMINATOR.as_slice(), authority, quorum) {
        return Err(PqQuorumAuthError::InvalidSignatureBuffer);
    }
    match read_u64(data, 76) {
        Some(v) => if v != nonce { return Err(PqQuorumAuthError::InvalidSignatureBuffer); },
        None => { return Err(PqQuorumAuthError::InvalidSignatureBuffer); },
    }
    validate_nonce_pda(WINTERNITZ_SIGNATURE_SEED.as_slice(), program_id, authority, quorum, nonce, buffer, data[SIGBUF_BUMP_OFFSET])
}

/// Outcome of writing a chunk into a Winternitz signature buffer (accounts: authority,
/// quorum, buffer; `data` = nonce, offset, chunk).
pub open spec fn write_signature_chunk_outcome(program_id: Seq<u8>, accounts: Seq<AccountHeader>, quorum_data: Seq<u8>, d: Seq<u8>, data: Seq<u8>) -> Result<(), ProgramFailure> {
    if data.len() < 10 || data.len() - 10 > WINTERNITZ_SIGNATURE_LEN || data.len() == 10 {
        Err(qfail(PqQuorumAuthError::InvalidInstructionData))
    } else if accounts.len() < 3 {
        Err(ProgramFailure::NotEnoughAccountKeys)
    } else if !accounts[0].is_signer {
        Err(ProgramFailure::MissingRequiredSignature)
    } else if !accounts[2].is_writable {
        Err(ProgramFailure::InvalidAccountData)
    } else if accounts[1].owner@ != program_id || accounts[2].owner@ != program_id {
        Err(qfail(PqQuorumAuthError::InvalidAccountOwner))
    } else if !quorum_authority_check(accounts[0].key@, quorum_data) {
        Err(qfail(PqQuorumAuthError::InvalidAccountData))
    } else {
        let nonce = spec_u64_from_le_bytes(data.subrange(0, 8));
        match signature_buffer_check(program_id, accounts[0].key@, accounts[1].key@, nonce, accounts[2].key@, d) {
            Err(e) => Err(qfail(e)),
            Ok(_) => {
                let offset = spec_u16_from_le_bytes(data.subrange(8, 10)) as int;
                if offset != buffer_written(d) as int || offset + (data.len() - 10) > WINTERNITZ_SIGNATURE_LEN {
                    Err(qfail(PqQuorumAuthError::InvalidInstructionData))
                } else {
                    Ok(())
                }
            },
        }
    }
}

/// Appends a chunk to a Winternitz signature buffer; chunks must arrive in order.
pub fn process_write_winternitz_signature_chunk(program_id: &[u8; 32], accounts: &[AccountHeader], quorum_data: &[u8], buffer_data: &mut [u8], data: &[u8]) -> (res: Result<(), ProgramFailure>)
    ensures
        res == write_signature_chunk_outcome(program_id@, accounts@, quorum_data@, old(buffer_data)@, data@),
        res is Ok ==> final(buffer_data)@ == spliced(
            spliced(old(buffer_data)@, 86 + spec_u16_from_le_bytes(data@.subrange(8, 10)), data@.subrange(10, data@.len() as int)),
            84, spec_u16_to_le_bytes((spec_u16_from_le_bytes(data@.subrange(8, 10)) + data@.len() - 10) as u16)),
        res is Err ==> final(buffer_data)@ == old(buffer_data)@,
{
    if data.len() < 10 {
        return Err(PqQuorumAuthError::InvalidInstructionData.into_failure());
    }
    let nonce = match read_u64(data, 0) { Some(v) => v, None => { return Err(PqQuorumAuthError::InvalidInstructionData.into_failure()); } };
    let offset = match read_u16(data, 8) { Some(v) => v as usize, None => { return Err(PqQuorumAuthError::InvalidInstructionData.into_failure()); } };
    let chunk = &data[10..data.len()];
    if chunk.len() == 0 || chunk.len() > WINTERNITZ_SIGNATURE_LEN {
        return Err(PqQuorumAuthError::InvalidInstructionData.into_failure());
    }
    if accounts.len() < 3 {
        return Err(ProgramFailure::NotEnoughAccountKeys);
    }
    let authority = accounts[0];
    let quorum = accounts[1];
    let buffer = accounts[2];
    if !authority.is_signer {
        return Err(ProgramFailure::MissingRequiredSignature);
    }
    if !buffer.is_writable {
        return Err(ProgramFailure::InvalidAccountData);
    }
    if !keys_eq(&quorum.owner, program_id) || !keys_eq(&buffer.owner, program_id) {
        return Err(PqQuorumAuthError::InvalidAccountOwner.into_failure());
    }
    if validate_quorum_authority(&authority.key, quorum_data).is_err() {
        return Err(PqQuorumAuthError::InvalidAccountData.into_failure());
    }
    match validate_signature_buffer_header(program_id, &authority.key, &quorum.key, nonce, &buffer.key, buffer_data) {
        Err(e) => { return Err(e.into_failure()); },
        Ok(_) => {},
    }
    let written = match read_u16(buffer_data, SIGBUF_WRITTEN_OFFSET) { Some(v) => v as usize, None => { return Err(PqQuorumAuthError::InvalidInstructionData.into_failure()); } };
    let end = offset + chunk.len();
    if offset != written || end > WINTERNITZ_SIGNATURE_LEN {
        return Err(PqQuorumAuthError::InvalidInstructionData.into_failure());
    }
    write_bytes(buffer_data, SIGBUF_DATA_OFFSET + offset, chunk);
    let end_bytes = u16_to_le_bytes(end as u16);
    write_bytes(buffer_data, SIGBUF_WRITTEN_OFFSET, end_bytes.as_slice());
    Ok(())
}

/// How a Winternitz approval is checked: a buffer owned by the program must be complete,
/// any other account's data is the signature itself. On success, whether the buffer is to be
/// closed afterwards.
pub open spec fn winternitz_outcome(program_id: Seq<u8>, authority: Seq<u8>, quorum: Seq<u8>, nonce: u64, sig_owner: Seq<u8>, sig_key: Seq<u8>, d: Seq<u8>,
    payload: Seq<u8>, expected_root: Seq<u8>) -> Result<bool, PqQuorumAuthError> {
    let buffered = sig_owner == program_id;
    let check = if buffered { signature_buffer_check(program_id, authority, quorum, nonce, sig_key, d) } else { Ok(()) };
    match check {
        Err(e) => Err(e),
        Ok(_) => if buffered && buffer_written(d) != WINTERNITZ_SIGNATURE_LEN {
            Err(PqQuorumAuthError::InvalidSignatureBuffer)
        } else {
            let sig = if buffered { d.subrange(86, 2230) } else { d };
            match spec_recover_root(sig, payload) {
                None => Err(PqQuorumAuthError::InvalidWinternitzSignature),
                Some(root) => if root != expected_root { Err(PqQuorumAuthError::InvalidWinternitzSignature) } else { Ok(buffered) },
            }
        },
    }
}

/// Verifies a Winternitz signature over `payload` against `expected_root`.
pub fn verify_winternitz_signature(program_id: &[u8; 32], authority: &[u8; 32], quorum: &[u8; 32], nonce: u64, sig_owner: &[u8; 32], sig_key: &[u8; 32],
    sig_data: &[u8], payload: &[u8], expected_root: &[u8; 32]) -> (res: Result<bool, PqQuorumAuthError>)
    ensures
        res == winternitz_outcome(program_id@, authority@, quorum@, nonce, sig_owner@, sig_key@, sig_data@, payload@, expected_root@),
{
    let buffered = keys_eq(sig_owner, program_id);
    let signature: &[u8] = if buffered {
        validate_signature_buffer_header(program_id, authority, quorum, nonce, sig_key, sig_data)?;
        match read_u16(sig_data, SIGBUF_WRITTEN_OFFSET) {
            Some(w) => if w as usize != WINTERNITZ_SIGNATURE_LEN { return Err(PqQuorumAuthError::InvalidSignatureBuffer); },
            None => { return Err(PqQuorumAuthError::InvalidSignatureBuffer); },
        }
        &sig_data[86..2230]
    } else {
        sig_data
    };
    let root = recover_wots16_root(signature, payload)?;
    if !keys_eq(&root, expected_root) {
        return Err(PqQuorumAuthError::InvalidWinternitzSignature);
    }
    Ok(buffered)
}

/// A Winternitz signature buffer passes its checks only when it is a complete-size buffer
/// of this authority and quorum, for this quorum nonce, at the per-nonce buffer address
/// under its stored bump.
pub proof fn law_signature_buffer_requirements(program_id: Seq<u8>, authority: Seq<u8>, quorum: Seq<u8>, nonce: u64, buffer: Seq<u8>, d: Seq<u8>)
    ensures
        signature_buffer_check(program_id, authority, quorum, nonce, buffer, d) is Ok ==> {
            &&& d.len() == WINTERNITZ_SIGNATURE_BUFFER_LEN
            &&& d.subrange(0, 8) == WINTERNITZ_SIGNATURE_DISCRIMINATOR@
            &&& d[8] == VERSION
            &&& d.subrange(12, 44) == authority
            &&& d.subrange(44, 76) == quorum
            &&& buffer_nonce(d) == nonce
            &&& pda_check(nonce_seeds(WINTERNITZ_SIGNATURE_SEED@, authority, quorum, nonce), program_id, buffer, d[9]) is Ok
        },
{
}

/// A Winternitz approval is accepted only when the signature recovers exactly the expected
/// root from the payload: read from a complete buffer (all 2144 signature bytes written) when
/// the signature account is owned by the program, and from the account's data otherwise;
/// the result says whether the buffer is to be closed, which is exactly when it is the
/// program's. A signature whose recovered root differs from the expected one is refused.
pub proof fn law_winternitz_requirements(program_id: Seq<u8>, authority: Seq<u8>, quorum: Seq<u8>, nonce: u64, sig_owner: Seq<u8>, sig_key: Seq<u8>,
    d: Seq<u8>, payload: Seq<u8>, expected_root: Seq<u8>)
    ensures
        winternitz_outcome(program_id, authority, quorum, nonce, sig_owner, sig_key, d, payload, expected_root) matches Ok(close) ==> {
            &&& close == (sig_owner == program_id)
            &&& sig_owner == program_id ==> {
                &&& signature_buffer_check(program_id, authority, quorum, nonce, sig_key, d) is Ok
                &&& buffer_written(d) == WINTERNITZ_SIGNATURE_LEN
                &&& spec_recover_root(d.subrange(86, 2230), payload) == Some(expected_root)
            }
            &&& sig_owner != program_id ==> spec_recover_root(d, payload) == Some(expected_root)
        },
        sig_owner != program_id && spec_recover_root(d, payload) != Some(expected_root)
            ==> winternitz_outcome(program_id, authority, quorum, nonce, sig_owner, sig_key, d, payload, expected_root)
                == Err::<bool, PqQuorumAuthError>(PqQuorumAuthError::InvalidWinternitzSignature),
{
}

/// A chunk is written into a Winternitz signature buffer only when the authority signs, the
/// buffer is writable, quorum and buffer are the program's, the quorum belongs to the
/// authority, the buffer passes its checks for the nonce in the instruction, the chunk is
/// non-empty, starts where the written bytes end and stays within the signature.
pub proof fn law_signature_chunk_requirements(program_id: Seq<u8>, accounts: Seq<AccountHeader>, quorum_data: Seq<u8>, d: Seq<u8>, data: Seq<u8>)
    ensures
        write_signature_chunk_outcome(program_id, accounts, quorum_data, d, data) is Ok ==> {
            &&& data.len() > 10
            &&& accounts.len() >= 3
            &&& accounts[0].is_signer
            &&& accounts[2].is_writable
            &&& accounts[1].owner@ == program_id
            &&& accounts[2].owner@ == program_id
            &&& quorum_authority_check(accounts[0].key@, quorum_data)
            &&& signature_buffer_check(program_id, accounts[0].key@, accounts[1].key@, spec_u64_from_le_bytes(data.subrange(0, 8)),
                accounts[2].key@, d) is Ok
            &&& spec_u16_from_le_bytes(data.subrange(8, 10)) == buffer_written(d)
            &&& buffer_written(d) + (data.len() - 10) <= WINTERNITZ_SIGNATURE_LEN
        },
{
}

/// If every one of the first `n` nibbles of `h1` is at least the matching nibble of `h2`, the
/// checksum of `h1` is at most that of `h2`, and equal only when those nibbles all agree.
proof fn lemma_checksum_dominance(h1: Seq<u8>, h2: Seq<u8>, n: nat)
    requires
        n <= 64,
        h1.len() == 32,
        h2.len() == 32,
        forall|i: int| 0 <= i < n ==> #[trigger] nibble(h1, i) >= nibble(h2, i),
    ensures
        nibble_checksum(h1, n) <= nibble_checksum(h2, n),
        nibble_checksum(h1, n) == nibble_checksum(h2, n) ==> forall|i: int| 0 <= i < n ==> #[trigger] nibble(h1, i) == nibble(h2, i),
    decreases n,
{
    if n > 0 {
        lemma_checksum_dominance(h1, h2, (n - 1) as nat);
        assert(nibble(h1, n - 1) >= nibble(h2, n - 1));
    }
}

/// A nibble is a digit in `0..=15`.
proof fn lemma_nibble_range(h: Seq<u8>, i: int)
    requires
        h.len() == 32,
        0 <= i < 64,
    ensures
        0 <= nibble(h, i) <= 15,
{
}

/// The three checksum digits spell the checksum.
proof fn lemma_checksum_digits(cs: u16)
    requires
        cs <= 960,
    ensures
        cs as int == 256 * ((cs as int / 256) % 16) + 16 * ((cs as int / 16) % 16) + cs as int % 16,
{
    assert(cs == 256 * ((cs / 256) % 16) + 16 * ((cs / 16) % 16) + cs % 16) by (bit_vector)
        requires cs <= 960;
}

/// The checksum makes the signed digit vectors incomparable: when every digit signed for
/// digest `h1` is at least the matching digit for digest `h2`, the two digit vectors are
/// equal. So a signature on one message, whose chains can only be advanced, never yields the
/// chain values a signature on a message with other digits needs.
pub proof fn law_winternitz_digits_incomparable(h1: Seq<u8>, h2: Seq<u8>)
    requires
        h1.len() == 32,
        h2.len() == 32,
        forall|i: int| 0 <= i < 67 ==> #[trigger] digits_of_digest(h1)[i] >= digits_of_digest(h2)[i],
    ensures
        digits_of_digest(h1) == digits_of_digest(h2),
{
    let d1 = digits_of_digest(h1);
    let d2 = digits_of_digest(h2);
    assert forall|i: int| 0 <= i < 64 implies #[trigger] nibble(h1, i) >= nibble(h2, i) by {
        lemma_nibble_range(h1, i);
        lemma_nibble_range(h2, i);
        assert(d1[i] >= d2[i]);
    }
    lemma_checksum_dominance(h1, h2, 64);
    lemma_checksum_bounds(h1, 64);
    lemma_checksum_bounds(h2, 64);
    let c1 = nibble_checksum(h1, 64);
    let c2 = nibble_checksum(h2, 64);
    lemma_checksum_digits(c1 as u16);
    lemma_checksum_digits(c2 as u16);
    assert(d1[64] >= d2[64] && d1[65] >= d2[65] && d1[66] >= d2[66]);
    assert(c1 >= c2);
    assert(c1 == c2);
    assert forall|i: int| 0 <= i < 67 implies d1[i] == d2[i] by {
        if i < 64 {
            assert(nibble(h1, i) == nibble(h2, i));
        }
    }
    assert(d1 =~= d2);
}

} // verus!
