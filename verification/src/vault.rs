//! A SOL vault whose withdrawals are authorized by the owner's Falcon key through the Falcon
//! program.
use vstd::prelude::*;
use vstd::bytes::{spec_u64_from_le_bytes, spec_u64_to_le_bytes, u64_to_le_bytes, lemma_auto_spec_u64_to_from_le_bytes};
use crate::digest::{sha256, spec_sha256, find_program_address, spec_find_program_address, seeds_view};
use crate::mldsa44::protocol::append_bytes;
use crate::quorum::payload::{falcon_verify_ix, build_falcon_verify_ix};
use crate::runtime::{AccountHeader, ProgramFailure, keys_eq, bytes_eq, is_system_program, system_program_id, read_u64, write_bytes, spliced};

verus! {

pub const TAG_INIT_VAULT: u8 = 0;
pub const TAG_DEPOSIT: u8 = 1;
pub const TAG_WITHDRAW_WITH_FALCON: u8 = 2;
pub const VERSION: u8 = 1;
/// `b"vault"`
pub const VAULT_SEED: [u8; 5] = [118, 97, 117, 108, 116];
/// `b"FALVLT01"`
pub const VAULT_DISCRIMINATOR: [u8; 8] = [70, 65, 76, 86, 76, 84, 48, 49];
/// `b"falcon-vault"`
pub const VAULT_DOMAIN_PREFIX: [u8; 12] = [102, 97, 108, 99, 111, 110, 45, 118, 97, 117, 108, 116];
/// `b"withdraw.v1"`
pub const VAULT_DOMAIN_NAME: [u8; 11] = [119, 105, 116, 104, 100, 114, 97, 119, 46, 118, 49];
/// `b"falcon-vault-withdraw-v1"`
pub const VAULT_WITHDRAW_TAG: [u8; 24] = [102, 97, 108, 99, 111, 110, 45, 118, 97, 117, 108, 116, 45, 119, 105, 116, 104, 100, 114, 97, 119, 45, 118, 49];
pub const WITHDRAW_COUNT_OFFSET: usize = 74;
pub const VAULT_ACCOUNT_LEN: usize = 82;
pub const WITHDRAW_DATA_LEN: usize = 691;

/// Errors of the vault program.
#[derive(Clone, Copy, PartialEq, Eq, Structural, Debug)]
pub enum FalconVaultError {
    InvalidInstructionData,
    InvalidAccountOwner,
    InvalidAccountData,
    InvalidFalconAuthProgram,
    ArithmeticOverflow,
    InsufficientVaultFunds,
}

impl FalconVaultError {
    pub open spec fn spec_code(self) -> u32 {
        match self {
            FalconVaultError::InvalidInstructionData => 1,
            FalconVaultError::InvalidAccountOwner => 2,
            FalconVaultError::InvalidAccountData => 3,
            FalconVaultError::InvalidFalconAuthProgram => 4,
            FalconVaultError::ArithmeticOverflow => 5,
            FalconVaultError::InsufficientVaultFunds => 6,
        }
    }

    /// The custom error code the program answers with.
    pub fn code(&self) -> (c: u32)
        ensures
            c == self.spec_code(),
    {
        match self {
            FalconVaultError::InvalidInstructionData => 1,
            FalconVaultError::InvalidAccountOwner => 2,
            FalconVaultError::InvalidAccountData => 3,
            FalconVaultError::InvalidFalconAuthProgram => 4,
            FalconVaultError::ArithmeticOverflow => 5,
            FalconVaultError::InsufficientVaultFunds => 6,
        }
    }

    /// The runtime error carrying this code.
    pub fn into_failure(self) -> (f: ProgramFailure)
        ensures
            f == ProgramFailure::Custom(self.spec_code()),
    {
        ProgramFailure::Custom(self.code())
    }
}

pub open spec fn vfail(e: FalconVaultError) -> ProgramFailure {
    ProgramFailure::Custom(e.spec_code())
}

/// The vault PDA of `authority` and the Falcon program.
pub open spec fn vault_seeds(authority: Seq<u8>, falcon_auth_program: Seq<u8>) -> Seq<Seq<u8>> {
    seq![VAULT_SEED@, authority, falcon_auth_program]
}

fn derive_vault(authority: &[u8], falcon_auth_program: &[u8], program_id: &[u8; 32]) -> (res: Option<([u8; 32], u8)>)
    ensures
        match res {
            Some((k, b)) => spec_find_program_address(vault_seeds(authority@, falcon_auth_program@), program_id@) == Some((k@, b)),
            None => spec_find_program_address(vault_seeds(authority@, falcon_auth_program@), program_id@) is None,
        },
{
    let seeds: [&[u8]; 3] = [VAULT_SEED.as_slice(), authority, falcon_auth_program];
    proof {
        assert(seeds_view(seeds@) =~= vault_seeds(authority@, falcon_auth_program@));
    }
    find_program_address(&seeds, program_id)
}

/// The vault account's contents.
pub open spec fn vault_account(bump: u8, authority: Seq<u8>, falcon_auth_program: Seq<u8>, withdraw_count: u64) -> Seq<u8> {
    VAULT_DISCRIMINATOR@ + seq![VERSION, bump] + authority + falcon_auth_program + spec_u64_to_le_bytes(withdraw_count)
}

/// Writes a vault account.
pub fn write_vault_state(data: &mut [u8], bump: u8, authority: &[u8], falcon_auth_program: &[u8], withdraw_count: u64) -> (res: Result<(), ProgramFailure>)
    ensures
        res is Ok <==> (old(data)@.len() == VAULT_ACCOUNT_LEN && authority@.len() == 32 && falcon_auth_program@.len() == 32),
        res is Err ==> res == Err::<(), ProgramFailure>(ProgramFailure::AccountDataTooSmall) && final(data)@ == old(data)@,
        res is Ok ==> final(data)@ == vault_account(bump, authority@, falcon_auth_program@, withdraw_count),
{
    if data.len() != VAULT_ACCOUNT_LEN || authority.len() != 32 || falcon_auth_program.len() != 32 {
        return Err(ProgramFailure::AccountDataTooSmall);
    }
    write_bytes(data, 0, VAULT_DISCRIMINATOR.as_slice());
    data[8] = VERSION;
    data[9] = bump;
    write_bytes(data, 10, authority);
    write_bytes(data, 42, falcon_auth_program);
    let count = u64_to_le_bytes(withdraw_count);
    write_bytes(data, WITHDRAW_COUNT_OFFSET, count.as_slice());
    proof {
        assert(data@ =~= vault_account(bump, authority@, falcon_auth_program@, withdraw_count));
    }
    Ok(())
}

/// The stored withdrawal count.
pub open spec fn withdraw_count(d: Seq<u8>) -> u64 {
    spec_u64_from_le_bytes(d.subrange(74, 82))
}

/// The checks of a vault account; the authority and the Falcon program are compared when
/// given.
pub open spec fn vault_check(program_id: Seq<u8>, vault: Seq<u8>, d: Seq<u8>, authority: Option<Seq<u8>>, falcon_auth_program: Option<Seq<u8>>) -> Result<(), FalconVaultError> {
    if d.len() != VAULT_ACCOUNT_LEN || d.subrange(0, 8) != VAULT_DISCRIMINATOR@ || d[8] != VERSION {
        Err(FalconVaultError::InvalidAccountData)
    } else if authority matches Some(a) && d.subrange(10, 42) != a {
        Err(FalconVaultError::InvalidAccountData)
    } else if falcon_auth_program matches Some(f) && d.subrange(42, 74) != f {
        Err(FalconVaultError::InvalidFalconAuthProgram)
    } else {
        match spec_find_program_address(vault_seeds(d.subrange(10, 42), d.subrange(42, 74)), program_id) {
            None => Err(FalconVaultError::InvalidAccountData),
            Some((k, b)) => if k != vault || b != d[9] { Err(FalconVaultError::InvalidAccountData) } else { Ok(()) },
        }
    }
}

/// Checks a vault account.
pub fn validate_vault_account(program_id: &[u8; 32], vault: &[u8; 32], data: &[u8], authority: Option<&[u8; 32]>, falcon_auth_program: Option<&[u8; 32]>)
    -> (res: Result<(), FalconVaultError>)
    ensures
        res == vault_check(program_id@, vault@, data@, match authority { Some(a) => Some(a@), None => None },
            match falcon_auth_program { Some(f) => Some(f@), None => None }),
{
    if data.len() != VAULT_ACCOUNT_LEN || !bytes_eq(&data[0..8], VAULT_DISCRIMINATOR.as_slice()) || data[8] != VERSION {
        return Err(FalconVaultError::InvalidAccountData);
    }
    let stored_authority = &data[10..42];
    let stored_program = &data[42..74];
    match authority {
        Some(a) => if !bytes_eq(stored_authority, a.as_slice()) { return Err(FalconVaultError::InvalidAccountData); },
        None => {},
    }
    match falcon_auth_program {
        Some(f) => if !bytes_eq(stored_program, f.as_slice()) { return Err(FalconVaultError::InvalidFalconAuthProgram); },
        None => {},
    }
    match derive_vault(stored_authority, stored_program, program_id) {
        None => Err(FalconVaultError::InvalidAccountData),
        Some((k, b)) => if !keys_eq(&k, vault) || b != data[9] { Err(FalconVaultError::InvalidAccountData) } else { Ok(()) },
    }
}

/// The action domain of vault withdrawals.
pub fn vault_withdraw_domain() -> (out: [u8; 32])
    ensures
        out@ == spec_sha256(VAULT_DOMAIN_PREFIX@ + VAULT_DOMAIN_NAME@),
{
    let mut input: Vec<u8> = Vec::new();
    append_bytes(&mut input, VAULT_DOMAIN_PREFIX.as_slice());
    append_bytes(&mut input, VAULT_DOMAIN_NAME.as_slice());
    sha256(input.as_slice())
}

/// The preimage of a withdrawal's action hash.
pub open spec fn withdraw_preimage(program_id: Seq<u8>, vault: Seq<u8>, authority: Seq<u8>, destination: Seq<u8>, lamports: u64, count: u64) -> Seq<u8> {
    VAULT_WITHDRAW_TAG@ + program_id + vault + authority + destination + spec_u64_to_le_bytes(lamports) + spec_u64_to_le_bytes(count)
}

/// The action hash a withdrawal is signed over: it names the vault, the destination, the
/// amount and the withdrawal count, so a signature authorizes one withdrawal only.
pub fn vault_withdraw_hash(program_id: &[u8; 32], vault: &[u8; 32], authority: &[u8; 32], destination: &[u8; 32], lamports: u64, count: u64) -> (out: [u8; 32])
    ensures
        out@ == spec_sha256(withdraw_preimage(program_id@, vault@, authority@, destination@, lamports, count)),
{
    let mut input: Vec<u8> = Vec::new();
    append_bytes(&mut input, VAULT_WITHDRAW_TAG.as_slice());
    append_bytes(&mut input, program_id.as_slice());
    append_bytes(&mut input, vault.as_slice());
    append_bytes(&mut input, authority.as_slice());
    append_bytes(&mut input, destination.as_slice());
    let l = u64_to_le_bytes(lamports);
    append_bytes(&mut input, l.as_slice());
    let c = u64_to_le_bytes(count);
    append_bytes(&mut input, c.as_slice());
    proof {
        assert(input@ =~= withdraw_preimage(program_id@, vault@, authority@, destination@, lamports, count));
    }
    sha256(input.as_slice())
}

/// What a vault creation needs from the runtime: create the PDA with this bump.
pub open spec fn init_vault_outcome(program_id: Seq<u8>, accounts: Seq<AccountHeader>, vault_data_len: nat, data: Seq<u8>) -> Result<u8, ProgramFailure> {
    if data.len() != 1 {
        Err(vfail(FalconVaultError::InvalidInstructionData))
    } else if accounts.len() < 4 {
        Err(ProgramFailure::NotEnoughAccountKeys)
    } else if !accounts[0].is_signer {
        Err(ProgramFailure::MissingRequiredSignature)
    } else if !accounts[0].is_writable || !accounts[1].is_writable {
        Err(ProgramFailure::InvalidAccountData)
    } else if !accounts[2].executable {
        Err(vfail(FalconVaultError::InvalidFalconAuthProgram))
    } else if accounts[3].key@ != system_program_id() {
        Err(ProgramFailure::IncorrectProgramId)
    } else if accounts[1].key@ == accounts[0].key@ || accounts[1].key@ == accounts[2].key@ {
        Err(ProgramFailure::InvalidArgument)
    } else {
        match spec_find_program_address(vault_seeds(accounts[0].key@, accounts[2].key@), program_id) {
            None => Err(vfail(FalconVaultError::InvalidAccountData)),
            Some((k, b)) => if k != accounts[1].key@ || b != data[0] {
                Err(vfail(FalconVaultError::InvalidAccountData))
            } else if accounts[1].owner@ != system_program_id() || vault_data_len != 0 {
                Err(vfail(FalconVaultError::InvalidAccountData))
            } else {
                Ok(data[0])
            },
        }
    }
}

/// Checks a vault creation (accounts: authority, vault PDA, Falcon program, system program).
pub fn plan_init_vault(program_id: &[u8; 32], accounts: &[AccountHeader], vault_data_len: usize, data: &[u8]) -> (res: Result<u8, ProgramFailure>)
    ensures
        res == init_vault_outcome(program_id@, accounts@, vault_data_len as nat, data@),
{
    if data.len() != 1 {
        return Err(FalconVaultError::InvalidInstructionData.into_failure());
    }
    if accounts.len() < 4 {
        return Err(ProgramFailure::NotEnoughAccountKeys);
    }
    let authority = accounts[0];
    let vault = accounts[1];
    let falcon_program = accounts[2];
    let system = accounts[3];
    if !authority.is_signer {
        return Err(ProgramFailure::MissingRequiredSignature);
    }
    if !authority.is_writable || !vault.is_writable {
        return Err(ProgramFailure::InvalidAccountData);
    }
    if !falcon_program.executable {
        return Err(FalconVaultError::InvalidFalconAuthProgram.into_failure());
    }
    if !is_system_program(&system.key) {
        return Err(ProgramFailure::IncorrectProgramId);
    }
    if keys_eq(&vault.key, &authority.key) || keys_eq(&vault.key, &falcon_program.key) {
        return Err(ProgramFailure::InvalidArgument);
    }
    match derive_vault(authority.key.as_slice(), falcon_program.key.as_slice(), program_id) {
        None => Err(FalconVaultError::InvalidAccountData.into_failure()),
        Some((k, b)) => {
            if !keys_eq(&k, &vault.key) || b != data[0] {
                return Err(FalconVaultError::InvalidAccountData.into_failure());
            }
            if !is_system_program(&vault.owner) || vault_data_len != 0 {
                return Err(FalconVaultError::InvalidAccountData.into_failure());
            }
            Ok(data[0])
        },
    }
}

/// Outcome of a deposit's checks: the lamports to transfer into the vault.
pub open spec fn deposit_outcome(program_id: Seq<u8>, accounts: Seq<AccountHeader>, vault_data: Seq<u8>, data: Seq<u8>) -> Result<u64, ProgramFailure> {
    if data.len() != 8 || spec_u64_from_le_bytes(data) == 0 {
        Err(vfail(FalconVaultError::InvalidInstructionData))
    } else if accounts.len() < 3 {
        Err(ProgramFailure::NotEnoughAccountKeys)
    } else if !accounts[0].is_signer {
        Err(ProgramFailure::MissingRequiredSignature)
    } else if !accounts[0].is_writable || !accounts[1].is_writable {
        Err(ProgramFailure::InvalidAccountData)
    } else if accounts[1].owner@ != program_id {
        Err(vfail(FalconVaultError::InvalidAccountOwner))
    } else if accounts[2].key@ != system_program_id() {
        Err(ProgramFailure::IncorrectProgramId)
    } else {
        match vault_check(program_id, accounts[1].key@, vault_data, None, None) {
            Err(e) => Err(vfail(e)),
            Ok(_) => Ok(spec_u64_from_le_bytes(data)),
        }
    }
}

/// Checks a deposit (accounts: depositor, vault, system program).
pub fn plan_deposit(program_id: &[u8; 32], accounts: &[AccountHeader], vault_data: &[u8], data: &[u8]) -> (res: Result<u64, ProgramFailure>)
    ensures
        res == deposit_outcome(program_id@, accounts@, vault_data@, data@),
{
    if data.len() != 8 {
        return Err(FalconVaultError::InvalidInstructionData.into_failure());
    }
    let lamports = match read_u64(data, 0) { Some(v) => v, None => { return Err(FalconVaultError::InvalidInstructionData.into_failure()); } };
    proof {
        assert(data@.subrange(0, 8) =~= data@);
    }
    if lamports == 0 {
        return Err(FalconVaultError::InvalidInstructionData.into_failure());
    }
    if accounts.len() < 3 {
        return Err(ProgramFailure::NotEnoughAccountKeys);
    }
    let depositor = accounts[0];
    let vault = accounts[1];
    let system = accounts[2];
    if !depositor.is_signer {
        return Err(ProgramFailure::MissingRequiredSignature);
    }
    if !depositor.is_writable || !vault.is_writable {
        return Err(ProgramFailure::InvalidAccountData);
    }
    if !keys_eq(&vault.owner, program_id) {
        return Err(FalconVaultError::InvalidAccountOwner.into_failure());
    }
    if !is_system_program(&system.key) {
        return Err(ProgramFailure::IncorrectProgramId);
    }
    match validate_vault_account(program_id, &vault.key, vault_data, None, None) {
        Err(e) => Err(e.into_failure()),
        Ok(_) => Ok(lamports),
    }
}

/// What a withdrawal needs from the runtime: the Falcon program call, then the balances.
pub struct WithdrawPlan {
    pub falcon_ix: Vec<u8>,
    pub withdraw_count: u64,
    pub vault_lamports: u64,
    pub destination_lamports: u64,
}

pub open spec fn u64_at(data: Seq<u8>, at: int) -> u64 {
    spec_u64_from_le_bytes(data.subrange(at, at + 8))
}

/// Outcome of a withdrawal's checks (accounts: authority, Falcon key, vault, destination,
/// Falcon program), with the rent-exempt minimum of a vault account.
pub open spec fn withdraw_outcome(program_id: Seq<u8>, accounts: Seq<AccountHeader>, vault_data: Seq<u8>, data: Seq<u8>, rent_minimum: u64) -> Result<(), ProgramFailure> {
    if data.len() != WITHDRAW_DATA_LEN {
        Err(vfail(FalconVaultError::InvalidInstructionData))
    } else if accounts.len() < 5 {
        Err(ProgramFailure::NotEnoughAccountKeys)
    } else if !accounts[1].is_writable || !accounts[2].is_writable || !accounts[3].is_writable {
        Err(ProgramFailure::InvalidAccountData)
    } else if accounts[2].key@ == accounts[0].key@ || accounts[2].key@ == accounts[1].key@ || accounts[2].key@ == accounts[3].key@
        || accounts[2].key@ == accounts[4].key@ {
        Err(ProgramFailure::InvalidArgument)
    } else if accounts[2].owner@ != program_id {
        Err(vfail(FalconVaultError::InvalidAccountOwner))
    } else if u64_at(data, 17) == 0 {
        Err(vfail(FalconVaultError::InvalidInstructionData))
    } else {
        match vault_check(program_id, accounts[2].key@, vault_data, Some(accounts[0].key@), Some(accounts[4].key@)) {
            Err(e) => Err(vfail(e)),
            Ok(_) => if !accounts[4].executable {
                Err(vfail(FalconVaultError::InvalidFalconAuthProgram))
            } else if accounts[2].lamports < u64_at(data, 17) || accounts[2].lamports - u64_at(data, 17) < rent_minimum {
                Err(vfail(FalconVaultError::InsufficientVaultFunds))
            } else if accounts[3].lamports + u64_at(data, 17) > u64::MAX {
                Err(vfail(FalconVaultError::ArithmeticOverflow))
            } else {
                Ok(())
            },
        }
    }
}

/// The Falcon program call of a withdrawal.
pub open spec fn withdraw_call(program_id: Seq<u8>, accounts: Seq<AccountHeader>, vault_data: Seq<u8>, data: Seq<u8>) -> Seq<u8> {
    falcon_verify_ix(data[0], u64_at(data, 1), u64_at(data, 9), spec_sha256(VAULT_DOMAIN_PREFIX@ + VAULT_DOMAIN_NAME@),
        spec_sha256(withdraw_preimage(program_id, accounts[2].key@, accounts[0].key@, accounts[3].key@, u64_at(data, 17), withdraw_count(vault_data))),
        data.subrange(25, 691))
}

/// Checks a withdrawal and plans the Falcon call and the balance changes.
pub fn plan_withdraw_with_falcon(program_id: &[u8; 32], accounts: &[AccountHeader], vault_data: &[u8], data: &[u8], rent_minimum: u64)
    -> (res: Result<WithdrawPlan, ProgramFailure>)
    ensures
        res is Ok <==> withdraw_outcome(program_id@, accounts@, vault_data@, data@, rent_minimum) is Ok,
        res matches Err(e) ==> withdraw_outcome(program_id@, accounts@, vault_data@, data@, rent_minimum) == Err::<(), ProgramFailure>(e),
        res matches Ok(plan) ==> {
            &&& plan.falcon_ix@ == withdraw_call(program_id@, accounts@, vault_data@, data@)
            &&& plan.withdraw_count == withdraw_count(vault_data@)
            &&& plan.vault_lamports == accounts@[2].lamports - u64_at(data@, 17)
            &&& plan.destination_lamports == accounts@[3].lamports + u64_at(data@, 17)
        },
{
    if data.len() != WITHDRAW_DATA_LEN {
        return Err(FalconVaultError::InvalidInstructionData.into_failure());
    }
    if accounts.len() < 5 {
        return Err(ProgramFailure::NotEnoughAccountKeys);
    }
    let authority = accounts[0];
    let falcon_key = accounts[1];
    let vault = accounts[2];
    let destination = accounts[3];
    let falcon_program = accounts[4];
    if !falcon_key.is_writable || !vault.is_writable || !destination.is_writable {
        return Err(ProgramFailure::InvalidAccountData);
    }
    if keys_eq(&vault.key, &authority.key) || keys_eq(&vault.key, &falcon_key.key) || keys_eq(&vault.key, &destination.key)
        || keys_eq(&vault.key, &falcon_program.key) {
        return Err(ProgramFailure::InvalidArgument);
    }
    if !keys_eq(&vault.owner, program_id) {
        return Err(FalconVaultError::InvalidAccountOwner.into_failure());
    }
    let cluster = data[0];
    let nonce = match read_u64(data, 1) { Some(v) => v, None => { return Err(FalconVaultError::InvalidInstructionData.into_failure()); } };
    let expires = match read_u64(data, 9) { Some(v) => v, None => { return Err(FalconVaultError::InvalidInstructionData.into_failure()); } };
    let lamports = match read_u64(data, 17) { Some(v) => v, None => { return Err(FalconVaultError::InvalidInstructionData.into_failure()); } };
    let signature = &data[25..691];
    if lamports == 0 {
        return Err(FalconVaultError::InvalidInstructionData.into_failure());
    }
    match validate_vault_account(program_id, &vault.key, vault_data, Some(&authority.key), Some(&falcon_program.key)) {
        Err(e) => { return Err(e.into_failure()); },
        Ok(_) => {},
    }
    if !falcon_program.executable {
        return Err(FalconVaultError::InvalidFalconAuthProgram.into_failure());
    }
    let count = match read_u64(vault_data, WITHDRAW_COUNT_OFFSET) { Some(v) => v, None => { return Err(FalconVaultError::InvalidInstructionData.into_failure()); } };
    let domain = vault_withdraw_domain();
    let hash = vault_withdraw_hash(program_id, &vault.key, &authority.key, &destination.key, lamports, count);
    let remaining = match vault.lamports.checked_sub(lamports) {
        Some(r) => r,
        None => { return Err(FalconVaultError::InsufficientVaultFunds.into_failure()); },
    };
    if remaining < rent_minimum {
        return Err(FalconVaultError::InsufficientVaultFunds.into_failure());
    }
    let next_destination = match destination.lamports.checked_add(lamports) {
        Some(n) => n,
        None => { return Err(FalconVaultError::ArithmeticOverflow.into_failure()); },
    };
    let ix = build_falcon_verify_ix(cluster, nonce, expires, domain.as_slice(), hash.as_slice(), signature);
    Ok(WithdrawPlan { falcon_ix: ix, withdraw_count: count, vault_lamports: remaining, destination_lamports: next_destination })
}

/// Outcome of committing a withdrawal: the count must not overflow, the vault must pass its
/// checks and still hold the count the withdrawal was planned with.
pub open spec fn commit_withdraw_outcome(program_id: Seq<u8>, vault: Seq<u8>, authority: Seq<u8>, falcon_auth_program: Seq<u8>, d: Seq<u8>,
    count: u64) -> Result<(), FalconVaultError> {
    if count == u64::MAX {
        Err(FalconVaultError::ArithmeticOverflow)
    } else {
        match vault_check(program_id, vault, d, Some(authority), Some(falcon_auth_program)) {
            Err(e) => Err(e),
            Ok(_) => if withdraw_count(d) != count { Err(FalconVaultError::InvalidAccountData) } else { Ok(()) },
        }
    }
}

/// After the Falcon call: re-checks the vault and advances its withdrawal count.
pub fn commit_withdraw(program_id: &[u8; 32], vault: &[u8; 32], authority: &[u8; 32], falcon_auth_program: &[u8; 32], vault_data: &mut [u8], count: u64)
    -> (res: Result<(), FalconVaultError>)
    ensures
        res == commit_withdraw_outcome(program_id@, vault@, authority@, falcon_auth_program@, old(vault_data)@, count),
        match res {
            Ok(_) => count < u64::MAX && vault_check(program_id@, vault@, old(vault_data)@, Some(authority@), Some(falcon_auth_program@)) is Ok
                && withdraw_count(old(vault_data)@) == count
                && final(vault_data)@ == spliced(old(vault_data)@, 74, spec_u64_to_le_bytes((count + 1) as u64)),
            Err(_) => final(vault_data)@ == old(vault_data)@,
        },
{
    let next = match count.checked_add(1) {
        Some(n) => n,
        None => { return Err(FalconVaultError::ArithmeticOverflow); },
    };
    validate_vault_account(program_id, vault, vault_data, Some(authority), Some(falcon_auth_program))?;
    match read_u64(vault_data, WITHDRAW_COUNT_OFFSET) {
        Some(v) => if v != count { return Err(FalconVaultError::InvalidAccountData); },
        None => { return Err(FalconVaultError::InvalidAccountData); },
    }
    let bytes = u64_to_le_bytes(next);
    write_bytes(vault_data, WITHDRAW_COUNT_OFFSET, bytes.as_slice());
    Ok(())
}

/// A withdrawal moves lamports from the vault to the destination and creates none: the two
/// balances sum to what they did, and the vault keeps at least its rent-exempt minimum.
pub proof fn law_withdraw_conserves_lamports(program_id: Seq<u8>, accounts: Seq<AccountHeader>, vault_data: Seq<u8>, data: Seq<u8>, rent_minimum: u64)
    requires
        withdraw_outcome(program_id, accounts, vault_data, data, rent_minimum) is Ok,
    ensures
        (accounts[2].lamports - u64_at(data, 17)) + (accounts[3].lamports + u64_at(data, 17)) == accounts[2].lamports + accounts[3].lamports,
        accounts[2].lamports - u64_at(data, 17) >= rent_minimum,
        u64_at(data, 17) > 0,
{
}

/// After a withdrawal is committed the withdrawal count has moved on, so the signed hash of
/// the same withdrawal no longer matches what the vault asks the Falcon key to sign.
pub proof fn law_withdraw_count_advances(d: Seq<u8>, count: u64)
    requires
        d.len() == VAULT_ACCOUNT_LEN,
        withdraw_count(d) == count,
        count < u64::MAX,
    ensures
        withdraw_count(spliced(d, 74, spec_u64_to_le_bytes((count + 1) as u64))) == count + 1,
        spliced(d, 74, spec_u64_to_le_bytes((count + 1) as u64)).subrange(0, 74) == d.subrange(0, 74),
{
    lemma_auto_spec_u64_to_from_le_bytes();
    let e = spliced(d, 74, spec_u64_to_le_bytes((count + 1) as u64));
    assert(e.subrange(74, 82) =~= spec_u64_to_le_bytes((count + 1) as u64));
    assert(e.subrange(0, 74) =~= d.subrange(0, 74));
}

/// A vault is created only bound to an executable Falcon program: once the signer and
/// writable checks pass, a non-executable account in the program slot is refused, and a
/// created vault sits at the PDA of the authority and that program with the given bump.
pub proof fn law_init_vault_requires_program(program_id: Seq<u8>, accounts: Seq<AccountHeader>, vault_data_len: nat, data: Seq<u8>)
    ensures
        init_vault_outcome(program_id, accounts, vault_data_len, data) is Ok ==> {
            &&& accounts.len() >= 4
            &&& accounts[0].is_signer
            &&& accounts[2].executable
            &&& accounts[3].key@ == system_program_id()
            &&& spec_find_program_address(vault_seeds(accounts[0].key@, accounts[2].key@), program_id) == Some((accounts[1].key@, data[0]))
            &&& init_vault_outcome(program_id, accounts, vault_data_len, data) == Ok::<u8, ProgramFailure>(data[0])
        },
        data.len() == 1 && accounts.len() >= 4 && accounts[0].is_signer && accounts[0].is_writable && accounts[1].is_writable
            && !accounts[2].executable
            ==> init_vault_outcome(program_id, accounts, vault_data_len, data) == Err::<u8, ProgramFailure>(vfail(FalconVaultError::InvalidFalconAuthProgram)),
{
}

/// A vault account passes its checks only when it carries the vault header, sits at the PDA
/// of the authority and Falcon program it records (with its stored bump), and records the
/// authority and program it is checked against.
pub proof fn law_vault_check_requirements(program_id: Seq<u8>, vault: Seq<u8>, d: Seq<u8>, authority: Option<Seq<u8>>,
    falcon_auth_program: Option<Seq<u8>>)
    ensures
        vault_check(program_id, vault, d, authority, falcon_auth_program) is Ok ==> {
            &&& d.len() == VAULT_ACCOUNT_LEN
            &&& d.subrange(0, 8) == VAULT_DISCRIMINATOR@
            &&& d[8] == VERSION
            &&& (authority matches Some(a) ==> d.subrange(10, 42) == a)
            &&& (falcon_auth_program matches Some(f) ==> d.subrange(42, 74) == f)
            &&& spec_find_program_address(vault_seeds(d.subrange(10, 42), d.subrange(42, 74)), program_id) == Some((vault, d[9]))
        },
{
}

/// A deposit is planned only from a signing depositor into a program-owned, valid vault, for a
/// positive amount, which is what it moves. A withdrawal is planned only for a positive amount
/// from a valid vault of this authority and executable Falcon program, leaving the vault at
/// least its rent minimum and not overflowing the destination.
pub proof fn law_deposit_withdraw_requirements(program_id: Seq<u8>, accounts: Seq<AccountHeader>, vault_data: Seq<u8>, data: Seq<u8>,
    rent_minimum: u64)
    ensures
        deposit_outcome(program_id, accounts, vault_data, data) is Ok ==> {
            &&& accounts.len() >= 3
            &&& accounts[0].is_signer
            &&& accounts[1].owner@ == program_id
            &&& accounts[2].key@ == system_program_id()
            &&& vault_check(program_id, accounts[1].key@, vault_data, None, None) is Ok
            &&& data.len() == 8
            &&& deposit_outcome(program_id, accounts, vault_data, data) == Ok::<u64, ProgramFailure>(spec_u64_from_le_bytes(data))
            &&& spec_u64_from_le_bytes(data) > 0
        },
        withdraw_outcome(program_id, accounts, vault_data, data, rent_minimum) is Ok ==> {
            &&& data.len() == WITHDRAW_DATA_LEN
            &&& accounts.len() >= 5
            &&& accounts[2].owner@ == program_id
            &&& accounts[2].key@ != accounts[0].key@ && accounts[2].key@ != accounts[3].key@
            &&& vault_check(program_id, accounts[2].key@, vault_data, Some(accounts[0].key@), Some(accounts[4].key@)) is Ok
            &&& accounts[4].executable
            &&& u64_at(data, 17) > 0
            &&& accounts[2].lamports >= u64_at(data, 17)
            &&& accounts[2].lamports - u64_at(data, 17) >= rent_minimum
            &&& accounts[3].lamports + u64_at(data, 17) <= u64::MAX
        },
{
}

/// A withdrawal's signed preimage binds program, vault, authority, destination, amount and
/// withdrawal count: two preimages are equal only when all of these are.
pub proof fn law_withdraw_preimage_binds_fields(program_id: Seq<u8>, vault: Seq<u8>, authority: Seq<u8>, destination: Seq<u8>, lamports: u64,
    count: u64, program_id2: Seq<u8>, vault2: Seq<u8>, authority2: Seq<u8>, destination2: Seq<u8>, lamports2: u64, count2: u64)
    requires
        program_id.len() == 32, vault.len() == 32, authority.len() == 32, destination.len() == 32,
        program_id2.len() == 32, vault2.len() == 32, authority2.len() == 32, destination2.len() == 32,
        withdraw_preimage(program_id, vault, authority, destination, lamports, count)
            == withdraw_preimage(program_id2, vault2, authority2, destination2, lamports2, count2),
    ensures
        program_id == program_id2, vault == vault2, authority == authority2, destination == destination2, lamports == lamports2,
        count == count2,
{
    lemma_auto_spec_u64_to_from_le_bytes();
    let p = withdraw_preimage(program_id, vault, authority, destination, lamports, count);
    let q = withdraw_preimage(program_id2, vault2, authority2, destination2, lamports2, count2);
    assert(p.subrange(24, 56) =~= program_id && q.subrange(24, 56) =~= program_id2);
    assert(p.subrange(56, 88) =~= vault && q.subrange(56, 88) =~= vault2);
    assert(p.subrange(88, 120) =~= authority && q.subrange(88, 120) =~= authority2);
    assert(p.subrange(120, 152) =~= destination && q.subrange(120, 152) =~= destination2);
    assert(p.subrange(152, 160) =~= spec_u64_to_le_bytes(lamports) && q.subrange(152, 160) =~= spec_u64_to_le_bytes(lamports2));
    assert(p.subrange(160, 168) =~= spec_u64_to_le_bytes(count) && q.subrange(160, 168) =~= spec_u64_to_le_bytes(count2));
}

} // verus!
