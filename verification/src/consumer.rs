//! An example application: a counter whose increments are authorized by the owner's Falcon
//! key through the Falcon program.
use vstd::prelude::*;
use vstd::bytes::{spec_u64_from_le_bytes, spec_u64_to_le_bytes, u64_to_le_bytes, lemma_auto_spec_u64_to_from_le_bytes};
use crate::digest::{sha256, spec_sha256, find_program_address, spec_find_program_address, seeds_view};
use crate::mldsa44::protocol::append_bytes;
use crate::quorum::payload::{falcon_verify_ix, build_falcon_verify_ix};
use crate::runtime::{AccountHeader, ProgramFailure, keys_eq, bytes_eq, is_system_program, system_program_id, read_u64, write_bytes, spliced};

verus! {

pub const TAG_INIT_COUNTER: u8 = 0;
pub const TAG_INCREMENT_WITH_FALCON: u8 = 1;
pub const VERSION: u8 = 1;
/// `b"counter"`
pub const COUNTER_SEED: [u8; 7] = [99, 111, 117, 110, 116, 101, 114];
/// `b"EXCNTR01"`
pub const COUNTER_DISCRIMINATOR: [u8; 8] = [69, 88, 67, 78, 84, 82, 48, 49];
/// `b"example-consumer"`
pub const COUNTER_DOMAIN_PREFIX: [u8; 16] = [101, 120, 97, 109, 112, 108, 101, 45, 99, 111, 110, 115, 117, 109, 101, 114];
/// `b"counter.increment.v1"`
pub const COUNTER_DOMAIN_NAME: [u8; 20] = [99, 111, 117, 110, 116, 101, 114, 46, 105, 110, 99, 114, 101, 109, 101, 110, 116, 46, 118, 49];
/// `b"example-counter-action-v1"`
pub const COUNTER_ACTION_TAG: [u8; 25] = [101, 120, 97, 109, 112, 108, 101, 45, 99, 111, 117, 110, 116, 101, 114, 45, 97, 99, 116, 105, 111, 110, 45, 118, 49];
pub const COUNTER_OFFSET: usize = 73;
pub const COUNTER_ACCOUNT_LEN: usize = 81;
pub const INCREMENT_DATA_LEN: usize = 691;

/// Errors of the example counter program.
#[derive(Clone, Copy, PartialEq, Eq, Structural, Debug)]
pub enum ExampleConsumerError {
    InvalidInstructionData,
    InvalidAccountOwner,
    InvalidAccountData,
    InvalidFalconAuthProgram,
    ArithmeticOverflow,
}

impl ExampleConsumerError {
    pub open spec fn spec_code(self) -> u32 {
        match self {
            ExampleConsumerError::InvalidInstructionData => 1,
            ExampleConsumerError::InvalidAccountOwner => 2,
            ExampleConsumerError::InvalidAccountData => 3,
            ExampleConsumerError::InvalidFalconAuthProgram => 4,
            ExampleConsumerError::ArithmeticOverflow => 5,
        }
    }

    /// The custom error code the program answers with.
    pub fn code(&self) -> (c: u32)
        ensures
            c == self.spec_code(),
    {
        match self {
            ExampleConsumerError::InvalidInstructionData => 1,
            ExampleConsumerError::InvalidAccountOwner => 2,
            ExampleConsumerError::InvalidAccountData => 3,
            ExampleConsumerError::InvalidFalconAuthProgram => 4,
            ExampleConsumerError::ArithmeticOverflow => 5,
        }
    }

    /// The runtime error carrying this code.
    pub fn into_failure(self) -> (f: ProgramFailure)
        ensures
            f == ProgramFailure::Custom(self.spec_code()),
    {
        ProgramFailure::Custom(self.code())
    }
}

pub open spec fn cfail(e: ExampleConsumerError) -> ProgramFailure {
    ProgramFailure::Custom(e.spec_code())
}

pub open spec fn counter_seeds(authority: Seq<u8>, falcon_auth_program: Seq<u8>) -> Seq<Seq<u8>> {
    seq![COUNTER_SEED@, authority, falcon_auth_program]
}

fn derive_counter(authority: &[u8], falcon_auth_program: &[u8], program_id: &[u8; 32]) -> (res: Option<([u8; 32], u8)>)
    ensures
        match res {
            Some((k, b)) => spec_find_program_address(counter_seeds(authority@, falcon_auth_program@), program_id@) == Some((k@, b)),
            None => spec_find_program_address(counter_seeds(authority@, falcon_auth_program@), program_id@) is None,
        },
{
    let seeds: [&[u8]; 3] = [COUNTER_SEED.as_slice(), authority, falcon_auth_program];
    proof {
        assert(seeds_view(seeds@) =~= counter_seeds(authority@, falcon_auth_program@));
    }
    find_program_address(&seeds, program_id)
}

/// The counter account's contents.
pub open spec fn counter_account(authority: Seq<u8>, falcon_auth_program: Seq<u8>, counter: u64) -> Seq<u8> {
    COUNTER_DISCRIMINATOR@ + seq![VERSION] + authority + falcon_auth_program + spec_u64_to_le_bytes(counter)
}

/// Writes a counter account.
pub fn write_counter_state(data: &mut [u8], authority: &[u8], falcon_auth_program: &[u8], counter: u64) -> (res: Result<(), ProgramFailure>)
    ensures
        res is Ok <==> (old(data)@.len() == COUNTER_ACCOUNT_LEN && authority@.len() == 32 && falcon_auth_program@.len() == 32),
        res is Err ==> res == Err::<(), ProgramFailure>(ProgramFailure::AccountDataTooSmall) && final(data)@ == old(data)@,
        res is Ok ==> final(data)@ == counter_account(authority@, falcon_auth_program@, counter),
{
    if data.len() != COUNTER_ACCOUNT_LEN || authority.len() != 32 || falcon_auth_program.len() != 32 {
        return Err(ProgramFailure::AccountDataTooSmall);
    }
    write_bytes(data, 0, COUNTER_DISCRIMINATOR.as_slice());
    data[8] = VERSION;
    write_bytes(data, 9, authority);
    write_bytes(data, 41, falcon_auth_program);
    let bytes = u64_to_le_bytes(counter);
    write_bytes(data, COUNTER_OFFSET, bytes.as_slice());
    proof {
        assert(data@ =~= counter_account(authority@, falcon_auth_program@, counter));
    }
    Ok(())
}

pub open spec fn stored_counter(d: Seq<u8>) -> u64 {
    spec_u64_from_le_bytes(d.subrange(73, 81))
}

/// The checks of a counter account.
pub open spec fn counter_check(program_id: Seq<u8>, counter: Seq<u8>, d: Seq<u8>, authority: Seq<u8>, falcon_auth_program: Seq<u8>, executable: bool)
    -> Result<(), ExampleConsumerError> {
    if d.len() != COUNTER_ACCOUNT_LEN || d.subrange(0, 8) != COUNTER_DISCRIMINATOR@ || d[8] != VERSION || d.subrange(9, 41) != authority {
        Err(ExampleConsumerError::InvalidAccountData)
    } else if d.subrange(41, 73) != falcon_auth_program || !executable {
        Err(ExampleConsumerError::InvalidFalconAuthProgram)
    } else {
        match spec_find_program_address(counter_seeds(authority, falcon_auth_program), program_id) {
            None => Err(ExampleConsumerError::InvalidAccountData),
            Some((k, _)) => if k != counter { Err(ExampleConsumerError::InvalidAccountData) } else { Ok(()) },
        }
    }
}

/// Checks a counter account.
pub fn validate_counter_account(program_id: &[u8; 32], counter: &[u8; 32], data: &[u8], authority: &[u8; 32], falcon_auth_program: &[u8; 32],
    executable: bool) -> (res: Result<(), ExampleConsumerError>)
    ensures
        res == counter_check(program_id@, counter@, data@, authority@, falcon_auth_program@, executable),
{
    if data.len() != COUNTER_ACCOUNT_LEN || !bytes_eq(&data[0..8], COUNTER_DISCRIMINATOR.as_slice()) || data[8] != VERSION
        || !bytes_eq(&data[9..41], authority.as_slice()) {
        return Err(ExampleConsumerError::InvalidAccountData);
    }
    if !bytes_eq(&data[41..73], falcon_auth_program.as_slice()) || !executable {
        return Err(ExampleConsumerError::InvalidFalconAuthProgram);
    }
    match derive_counter(authority.as_slice(), falcon_auth_program.as_slice(), program_id) {
        None => Err(ExampleConsumerError::InvalidAccountData),
        Some((k, _)) => if !keys_eq(&k, counter) { Err(ExampleConsumerError::InvalidAccountData) } else { Ok(()) },
    }
}

/// The action domain of counter increments.
pub fn counter_increment_domain() -> (out: [u8; 32])
    ensures
        out@ == spec_sha256(COUNTER_DOMAIN_PREFIX@ + COUNTER_DOMAIN_NAME@),
{
    let mut input: Vec<u8> = Vec::new();
    append_bytes(&mut input, COUNTER_DOMAIN_PREFIX.as_slice());
    append_bytes(&mut input, COUNTER_DOMAIN_NAME.as_slice());
    sha256(input.as_slice())
}

pub open spec fn increment_preimage(program_id: Seq<u8>, counter: Seq<u8>, authority: Seq<u8>, amount: u64, current: u64) -> Seq<u8> {
    COUNTER_ACTION_TAG@ + program_id + counter + authority + spec_u64_to_le_bytes(amount) + spec_u64_to_le_bytes(current)
}

/// The action hash an increment is signed over: counter, amount and current value.
pub fn counter_increment_hash(program_id: &[u8; 32], counter: &[u8; 32], authority: &[u8; 32], amount: u64, current: u64) -> (out: [u8; 32])
    ensures
        out@ == spec_sha256(increment_preimage(program_id@, counter@, authority@, amount, current)),
{
    let mut input: Vec<u8> = Vec::new();
    append_bytes(&mut input, COUNTER_ACTION_TAG.as_slice());
    append_bytes(&mut input, program_id.as_slice());
    append_bytes(&mut input, counter.as_slice());
    append_bytes(&mut input, authority.as_slice());
    let a = u64_to_le_bytes(amount);
    append_bytes(&mut input, a.as_slice());
    let c = u64_to_le_bytes(current);
    append_bytes(&mut input, c.as_slice());
    proof {
        assert(input@ =~= increment_preimage(program_id@, counter@, authority@, amount, current));
    }
    sha256(input.as_slice())
}

/// Outcome of a counter creation's checks: the bump to create the PDA with.
pub open spec fn init_counter_outcome(program_id: Seq<u8>, accounts: Seq<AccountHeader>, counter_data_len: nat, data: Seq<u8>) -> Result<u8, ProgramFailure> {
    if data.len() != 1 {
        Err(cfail(ExampleConsumerError::InvalidInstructionData))
    } else if accounts.len() < 4 {
        Err(ProgramFailure::NotEnoughAccountKeys)
    } else if !accounts[0].is_signer {
        Err(ProgramFailure::MissingRequiredSignature)
    } else if !accounts[0].is_writable || !accounts[1].is_writable {
        Err(ProgramFailure::InvalidAccountData)
    } else if !accounts[2].executable {
        Err(cfail(ExampleConsumerError::InvalidFalconAuthProgram))
    } else if accounts[3].key@ != system_program_id() {
        Err(ProgramFailure::IncorrectProgramId)
    } else if accounts[1].key@ == accounts[0].key@ || accounts[1].key@ == accounts[2].key@ {
        Err(ProgramFailure::InvalidArgument)
    } else {
        match spec_find_program_address(counter_seeds(accounts[0].key@, accounts[2].key@), program_id) {
            None => Err(cfail(ExampleConsumerError::InvalidAccountData)),
            Some((k, b)) => if k != accounts[1].key@ || b != data[0] {
                Err(cfail(ExampleConsumerError::InvalidAccountData))
            } else if accounts[1].owner@ != system_program_id() || counter_data_len != 0 {
                Err(cfail(ExampleConsumerError::InvalidAccountData))
            } else {
                Ok(data[0])
            },
        }
    }
}

/// Checks a counter creation (accounts: authority, counter PDA, Falcon program, system
/// program).
pub fn plan_init_counter(program_id: &[u8; 32], accounts: &[AccountHeader], counter_data_len: usize, data: &[u8]) -> (res: Result<u8, ProgramFailure>)
    ensures
        res == init_counter_outcome(program_id@, accounts@, counter_data_len as nat, data@),
{
    if data.len() != 1 {
        return Err(ExampleConsumerError::InvalidInstructionData.into_failure());
    }
    if accounts.len() < 4 {
        return Err(ProgramFailure::NotEnoughAccountKeys);
    }
    let authority = accounts[0];
    let counter = accounts[1];
    let falcon_program = accounts[2];
    let system = accounts[3];
    if !authority.is_signer {
        return Err(ProgramFailure::MissingRequiredSignature);
    }
    if !authority.is_writable || !counter.is_writable {
        return Err(ProgramFailure::InvalidAccountData);
    }
    if !falcon_program.executable {
        return Err(ExampleConsumerError::InvalidFalconAuthProgram.into_failure());
    }
    if !is_system_program(&system.key) {
        return Err(ProgramFailure::IncorrectProgramId);
    }
    if keys_eq(&counter.key, &authority.key) || keys_eq(&counter.key, &falcon_program.key) {
        return Err(ProgramFailure::InvalidArgument);
    }
    match derive_counter(authority.key.as_slice(), falcon_program.key.as_slice(), program_id) {
        None => Err(ExampleConsumerError::InvalidAccountData.into_failure()),
        Some((k, b)) => {
            if !keys_eq(&k, &counter.key) || b != data[0] {
                return Err(ExampleConsumerError::InvalidAccountData.into_failure());
            }
            if !is_system_program(&counter.owner) || counter_data_len != 0 {
                return Err(ExampleConsumerError::InvalidAccountData.into_failure());
            }
            Ok(data[0])
        },
    }
}

pub open spec fn u64_at(data: Seq<u8>, at: int) -> u64 {
    spec_u64_from_le_bytes(data.subrange(at, at + 8))
}

/// Outcome of an increment's checks (accounts: authority, Falcon key, counter, Falcon
/// program).
pub open spec fn increment_outcome(program_id: Seq<u8>, accounts: Seq<AccountHeader>, counter_data: Seq<u8>, data: Seq<u8>) -> Result<(), ProgramFailure> {
    if data.len() != INCREMENT_DATA_LEN {
        Err(cfail(ExampleConsumerError::InvalidInstructionData))
    } else if accounts.len() < 4 {
        Err(ProgramFailure::NotEnoughAccountKeys)
    } else if !accounts[1].is_writable || !accounts[2].is_writable {
        Err(ProgramFailure::InvalidAccountData)
    } else if accounts[2].key@ == accounts[0].key@ || accounts[2].key@ == accounts[1].key@ {
        Err(ProgramFailure::InvalidArgument)
    } else if accounts[2].owner@ != program_id {
        Err(cfail(ExampleConsumerError::InvalidAccountOwner))
    } else {
        match counter_check(program_id, accounts[2].key@, counter_data, accounts[0].key@, accounts[3].key@, accounts[3].executable) {
            Err(e) => Err(cfail(e)),
            Ok(_) => Ok(()),
        }
    }
}

/// The Falcon program call of an increment.
pub open spec fn increment_call(program_id: Seq<u8>, accounts: Seq<AccountHeader>, counter_data: Seq<u8>, data: Seq<u8>) -> Seq<u8> {
    falcon_verify_ix(data[0], u64_at(data, 1), u64_at(data, 9), spec_sha256(COUNTER_DOMAIN_PREFIX@ + COUNTER_DOMAIN_NAME@),
        spec_sha256(increment_preimage(program_id, accounts[2].key@, accounts[0].key@, u64_at(data, 17), stored_counter(counter_data))),
        data.subrange(25, 691))
}

/// Checks an increment and plans the Falcon program call; returns the call and the current
/// counter value.
pub fn plan_increment_with_falcon(program_id: &[u8; 32], accounts: &[AccountHeader], counter_data: &[u8], data: &[u8]) -> (res: Result<(Vec<u8>, u64), ProgramFailure>)
    ensures
        res is Ok <==> increment_outcome(program_id@, accounts@, counter_data@, data@) is Ok,
        res matches Err(e) ==> increment_outcome(program_id@, accounts@, counter_data@, data@) == Err::<(), ProgramFailure>(e),
        res matches Ok((ix, current)) ==> ix@ == increment_call(program_id@, accounts@, counter_data@, data@) && current == stored_counter(counter_data@),
{
    if data.len() != INCREMENT_DATA_LEN {
        return Err(ExampleConsumerError::InvalidInstructionData.into_failure());
    }
    if accounts.len() < 4 {
        return Err(ProgramFailure::NotEnoughAccountKeys);
    }
    let authority = accounts[0];
    let falcon_key = accounts[1];
    let counter = accounts[2];
    let falcon_program = accounts[3];
    if !falcon_key.is_writable || !counter.is_writable {
        return Err(ProgramFailure::InvalidAccountData);
    }
    if keys_eq(&counter.key, &authority.key) || keys_eq(&counter.key, &falcon_key.key) {
        return Err(ProgramFailure::InvalidArgument);
    }
    if !keys_eq(&counter.owner, program_id) {
        return Err(ExampleConsumerError::InvalidAccountOwner.into_failure());
    }
    let cluster = data[0];
    let nonce = match read_u64(data, 1) { Some(v) => v, None => { return Err(ExampleConsumerError::InvalidInstructionData.into_failure()); } };
    let expires = match read_u64(data, 9) { Some(v) => v, None => { return Err(ExampleConsumerError::InvalidInstructionData.into_failure()); } };
    let amount = match read_u64(data, 17) { Some(v) => v, None => { return Err(ExampleConsumerError::InvalidInstructionData.into_failure()); } };
    let signature = &data[25..691];
    match validate_counter_account(program_id, &counter.key, counter_data, &authority.key, &falcon_program.key, falcon_program.executable) {
        Err(e) => { return Err(e.into_failure()); },
        Ok(_) => {},
    }
    let current = match read_u64(counter_data, COUNTER_OFFSET) { Some(v) => v, None => { return Err(ExampleConsumerError::InvalidInstructionData.into_failure()); } };
    let domain = counter_increment_domain();
    let hash = counter_increment_hash(program_id, &counter.key, &authority.key, amount, current);
    let ix = build_falcon_verify_ix(cluster, nonce, expires, domain.as_slice(), hash.as_slice(), signature);
    Ok((ix, current))
}

/// Outcome of committing an increment: the counter must pass its checks, still hold the value
/// the increment was planned with, and the sum must fit in a `u64`.
pub open spec fn commit_increment_outcome(program_id: Seq<u8>, counter: Seq<u8>, authority: Seq<u8>, falcon_auth_program: Seq<u8>,
    executable: bool, d: Seq<u8>, current: u64, amount: u64) -> Result<(), ExampleConsumerError> {
    match counter_check(program_id, counter, d, authority, falcon_auth_program, executable) {
        Err(e) => Err(e),
        Ok(_) => if stored_counter(d) != current {
            Err(ExampleConsumerError::InvalidAccountData)
        } else if current + amount > u64::MAX {
            Err(ExampleConsumerError::ArithmeticOverflow)
        } else {
            Ok(())
        },
    }
}

/// After the Falcon call: re-checks the counter and adds `amount` to it.
pub fn commit_increment(program_id: &[u8; 32], counter: &[u8; 32], authority: &[u8; 32], falcon_auth_program: &[u8; 32], executable: bool,
    counter_data: &mut [u8], current: u64, amount: u64) -> (res: Result<(), ExampleConsumerError>)
    ensures
        res == commit_increment_outcome(program_id@, counter@, authority@, falcon_auth_program@, executable, old(counter_data)@, current, amount),
        match res {
            Ok(_) => counter_check(program_id@, counter@, old(counter_data)@, authority@, falcon_auth_program@, executable) is Ok
                && stored_counter(old(counter_data)@) == current && current + amount <= u64::MAX
                && final(counter_data)@ == spliced(old(counter_data)@, 73, spec_u64_to_le_bytes((current + amount) as u64)),
            Err(_) => final(counter_data)@ == old(counter_data)@,
        },
{
    validate_counter_account(program_id, counter, counter_data, authority, falcon_auth_program, executable)?;
    match read_u64(counter_data, COUNTER_OFFSET) {
        Some(v) => if v != current { return Err(ExampleConsumerError::InvalidAccountData); },
        None => { return Err(ExampleConsumerError::InvalidAccountData); },
    }
    let next = match current.checked_add(amount) {
        Some(n) => n,
        None => { return Err(ExampleConsumerError::ArithmeticOverflow); },
    };
    let bytes = u64_to_le_bytes(next);
    write_bytes(counter_data, COUNTER_OFFSET, bytes.as_slice());
    Ok(())
}

/// An increment adds exactly its amount: the stored counter reads back as the old value plus
/// the amount, and the rest of the account is unchanged.
pub proof fn law_increment_adds_amount(d: Seq<u8>, current: u64, amount: u64)
    requires
        d.len() == COUNTER_ACCOUNT_LEN,
        current + amount <= u64::MAX,
    ensures
        stored_counter(spliced(d, 73, spec_u64_to_le_bytes((current + amount) as u64))) == current + amount,
        spliced(d, 73, spec_u64_to_le_bytes((current + amount) as u64)).subrange(0, 73) == d.subrange(0, 73),
{
    lemma_auto_spec_u64_to_from_le_bytes();
    let e = spliced(d, 73, spec_u64_to_le_bytes((current + amount) as u64));
    assert(e.subrange(73, 81) =~= spec_u64_to_le_bytes((current + amount) as u64));
    assert(e.subrange(0, 73) =~= d.subrange(0, 73));
}

/// A counter account passes its checks only when it is a counter account storing this
/// authority and this Falcon program, the Falcon program is executable, and the account sits
/// at the counter address of the authority and program.
pub proof fn law_counter_requirements(program_id: Seq<u8>, counter: Seq<u8>, d: Seq<u8>, authority: Seq<u8>, falcon_auth_program: Seq<u8>,
    executable: bool)
    ensures
        counter_check(program_id, counter, d, authority, falcon_auth_program, executable) is Ok ==> {
            &&& d.len() == COUNTER_ACCOUNT_LEN
            &&& d.subrange(0, 8) == COUNTER_DISCRIMINATOR@
            &&& d[8] == VERSION
            &&& d.subrange(9, 41) == authority
            &&& d.subrange(41, 73) == falcon_auth_program
            &&& executable
            &&& spec_find_program_address(counter_seeds(authority, falcon_auth_program), program_id) matches Some((k, _)) && k == counter
        },
        !executable ==> counter_check(program_id, counter, d, authority, falcon_auth_program, executable) is Err,
{
}

/// A counter is created only when the authority signs, authority and counter are writable,
/// the Falcon program is executable, the system program is named, the counter is neither the
/// authority nor the Falcon program, and the counter is the canonical counter address of the
/// authority and Falcon program with the bump in the instruction (still an empty account of
/// the system program), which is what is returned.
pub proof fn law_init_counter_requirements(program_id: Seq<u8>, accounts: Seq<AccountHeader>, counter_data_len: nat, data: Seq<u8>)
    ensures
        init_counter_outcome(program_id, accounts, counter_data_len, data) matches Ok(bump) ==> {
            &&& data.len() == 1
            &&& bump == data[0]
            &&& accounts.len() >= 4
            &&& accounts[0].is_signer && accounts[0].is_writable && accounts[1].is_writable
            &&& accounts[2].executable
            &&& accounts[3].key@ == system_program_id()
            &&& accounts[1].key@ != accounts[0].key@ && accounts[1].key@ != accounts[2].key@
            &&& spec_find_program_address(counter_seeds(accounts[0].key@, accounts[2].key@), program_id) == Some((accounts[1].key@, data[0]))
            &&& accounts[1].owner@ == system_program_id()
            &&& counter_data_len == 0
        },
{
}

/// An increment passes its checks only when Falcon key and counter are writable, the counter
/// is neither the authority nor the Falcon key, it is the program's, and it passes the counter
/// checks for this authority and this (executable) Falcon program.
pub proof fn law_increment_requirements(program_id: Seq<u8>, accounts: Seq<AccountHeader>, counter_data: Seq<u8>, data: Seq<u8>)
    ensures
        increment_outcome(program_id, accounts, counter_data, data) is Ok ==> {
            &&& data.len() == INCREMENT_DATA_LEN
            &&& accounts.len() >= 4
            &&& accounts[1].is_writable && accounts[2].is_writable
            &&& accounts[2].key@ != accounts[0].key@ && accounts[2].key@ != accounts[1].key@
            &&& accounts[2].owner@ == program_id
            &&& accounts[3].executable
            &&& counter_check(program_id, accounts[2].key@, counter_data, accounts[0].key@, accounts[3].key@, accounts[3].executable) is Ok
        },
{
}

/// Committing an increment succeeds only on a counter that passes its checks, still holds the
/// value the increment was planned with, and has room for the amount.
pub proof fn law_commit_increment_requirements(program_id: Seq<u8>, counter: Seq<u8>, authority: Seq<u8>, falcon_auth_program: Seq<u8>,
    executable: bool, d: Seq<u8>, current: u64, amount: u64)
    ensures
        commit_increment_outcome(program_id, counter, authority, falcon_auth_program, executable, d, current, amount) is Ok ==> {
            &&& counter_check(program_id, counter, d, authority, falcon_auth_program, executable) is Ok
            &&& stored_counter(d) == current
            &&& current + amount <= u64::MAX
        },
        counter_check(program_id, counter, d, authority, falcon_auth_program, executable) is Ok && stored_counter(d) != current
            ==> commit_increment_outcome(program_id, counter, authority, falcon_auth_program, executable, d, current, amount)
                == Err::<(), ExampleConsumerError>(ExampleConsumerError::InvalidAccountData),
{
}

/// An increment's signed preimage binds program, counter, authority, amount and current
/// value: two preimages are equal only when all of these are.
pub proof fn law_increment_preimage_binds_fields(program_id: Seq<u8>, counter: Seq<u8>, authority: Seq<u8>, amount: u64, current: u64,
    program_id2: Seq<u8>, counter2: Seq<u8>, authority2: Seq<u8>, amount2: u64, current2: u64)
    requires
        program_id.len() == 32, counter.len() == 32, authority.len() == 32,
        program_id2.len() == 32, counter2.len() == 32, authority2.len() == 32,
        increment_preimage(program_id, counter, authority, amount, current) == increment_preimage(program_id2, counter2, authority2, amount2, current2),
    ensures
        program_id == program_id2, counter == counter2, authority == authority2, amount == amount2, current == current2,
{
    lemma_auto_spec_u64_to_from_le_bytes();
    let p = increment_preimage(program_id, counter, authority, amount, current);
    let q = increment_preimage(program_id2, counter2, authority2, amount2, current2);
    assert(p.subrange(25, 57) =~= program_id && q.subrange(25, 57) =~= program_id2);
    assert(p.subrange(57, 89) =~= counter && q.subrange(57, 89) =~= counter2);
    assert(p.subrange(89, 121) =~= authority && q.subrange(89, 121) =~= authority2);
    assert(p.subrange(121, 129) =~= spec_u64_to_le_bytes(amount) && q.subrange(121, 129) =~= spec_u64_to_le_bytes(amount2));
    assert(p.subrange(129, 137) =~= spec_u64_to_le_bytes(current) && q.subrange(129, 137) =~= spec_u64_to_le_bytes(current2));
}

} // verus!
