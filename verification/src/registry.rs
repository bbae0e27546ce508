//! The migration registry: binds a legacy wallet to the post-quantum smart account and
//! quorum that now act for it.
use vstd::prelude::*;
use crate::digest::{create_program_address, spec_create_program_address, seeds_view};
use crate::runtime::{AccountHeader, ProgramFailure, keys_eq, bytes_eq, is_system_program, system_program_id, write_bytes, fill_bytes};
use crate::quorum::state::{keys_distinct, reject_duplicate_runtime_accounts};

verus! {

pub const TAG_BIND: u8 = 0;
pub const VERSION: u8 = 1;
/// `b"pq-migrate"`
pub const REGISTRY_SEED: [u8; 10] = [112, 113, 45, 109, 105, 103, 114, 97, 116, 101];
/// `b"pq-smart"`
pub const SMART_ACCOUNT_SEED: [u8; 8] = [112, 113, 45, 115, 109, 97, 114, 116];
/// `b"PQREG001"`
pub const REGISTRY_DISCRIMINATOR: [u8; 8] = [80, 81, 82, 69, 71, 48, 48, 49];
/// `b"PQSMRT01"`
pub const SMART_ACCOUNT_DISCRIMINATOR: [u8; 8] = [80, 81, 83, 77, 82, 84, 48, 49];
pub const REGISTRY_ACCOUNT_LEN: usize = 172;
pub const SMART_ACCOUNT_LEN: usize = 116;

/// Errors of the migration registry.
#[derive(Clone, Copy, PartialEq, Eq, Structural, Debug)]
pub enum PqMigrationRegistryError {
    InvalidInstructionData,
    InvalidAccountOwner,
    InvalidAccountData,
    InvalidPda,
    InvalidSmartAccount,
    InvalidProgram,
}

impl PqMigrationRegistryError {
    pub open spec fn spec_code(self) -> u32 {
        match self {
            PqMigrationRegistryError::InvalidInstructionData => 1,
            PqMigrationRegistryError::InvalidAccountOwner => 2,
            PqMigrationRegistryError::InvalidAccountData => 3,
            PqMigrationRegistryError::InvalidPda => 4,
            PqMigrationRegistryError::InvalidSmartAccount => 5,
            PqMigrationRegistryError::InvalidProgram => 6,
        }
    }

    /// The custom error code the program answers with.
    pub fn code(&self) -> (c: u32)
        ensures
            c == self.spec_code(),
    {
        match self {
            PqMigrationRegistryError::InvalidInstructionData => 1,
            PqMigrationRegistryError::InvalidAccountOwner => 2,
            PqMigrationRegistryError::InvalidAccountData => 3,
            PqMigrationRegistryError::InvalidPda => 4,
            PqMigrationRegistryError::InvalidSmartAccount => 5,
            PqMigrationRegistryError::InvalidProgram => 6,
        }
    }

    /// The runtime error carrying this code.
    pub fn into_failure(self) -> (f: ProgramFailure)
        ensures
            f == ProgramFailure::Custom(self.spec_code()),
    {
        ProgramFailure::Custom(self.code())
    }
}

pub open spec fn rfail(e: PqMigrationRegistryError) -> ProgramFailure {
    ProgramFailure::Custom(e.spec_code())
}

/// `Ok` when `key` is the address of `seeds` under `program_id`.
pub open spec fn exact_pda_check(seeds: Seq<Seq<u8>>, program_id: Seq<u8>, key: Seq<u8>) -> Result<(), PqMigrationRegistryError> {
    match spec_create_program_address(seeds, program_id) {
        None => Err(PqMigrationRegistryError::InvalidPda),
        Some(k) => if k != key { Err(PqMigrationRegistryError::InvalidPda) } else { Ok(()) },
    }
}

fn check_exact_pda(seeds: &[&[u8]], program_id: &[u8; 32], key: &[u8; 32]) -> (res: Result<(), PqMigrationRegistryError>)
    ensures
        res == exact_pda_check(seeds_view(seeds@), program_id@, key@),
{
    match create_program_address(seeds, program_id) {
        None => Err(PqMigrationRegistryError::InvalidPda),
        Some(k) => if !keys_eq(&k, key) { Err(PqMigrationRegistryError::InvalidPda) } else { Ok(()) },
    }
}

pub open spec fn registry_seeds(legacy_wallet: Seq<u8>, bump: u8) -> Seq<Seq<u8>> {
    seq![REGISTRY_SEED@, legacy_wallet, seq![bump]]
}

pub open spec fn smart_account_seeds(legacy_wallet: Seq<u8>, pq_quorum_program: Seq<u8>, quorum: Seq<u8>, bump: u8) -> Seq<Seq<u8>> {
    seq![SMART_ACCOUNT_SEED@, legacy_wallet, pq_quorum_program, quorum, seq![bump]]
}

/// Checks the registry PDA of `legacy_wallet` with bump `bump`.
pub fn validate_registry_pda(program_id: &[u8; 32], legacy_wallet: &[u8; 32], registry: &[u8; 32], bump: u8) -> (res: Result<(), PqMigrationRegistryError>)
    ensures
        res == exact_pda_check(registry_seeds(legacy_wallet@, bump), program_id@, registry@),
{
    let bump_bytes = [bump];
    let seeds: [&[u8]; 3] = [REGISTRY_SEED.as_slice(), legacy_wallet.as_slice(), bump_bytes.as_slice()];
    proof {
        assert(bump_bytes@ =~= seq![bump]);
        assert(seeds_view(seeds@) =~= registry_seeds(legacy_wallet@, bump));
    }
    check_exact_pda(seeds.as_slice(), program_id, registry)
}

/// The checks that a smart account is the wallet's, for this quorum, at its PDA.
pub open spec fn smart_binding_check(smart_program: Seq<u8>, legacy_wallet: Seq<u8>, smart_account: Seq<u8>, d: Seq<u8>, pq_quorum_program: Seq<u8>,
    quorum: Seq<u8>) -> Result<(), PqMigrationRegistryError> {
    if d.len() != SMART_ACCOUNT_LEN || d.subrange(0, 8) != SMART_ACCOUNT_DISCRIMINATOR@ || d[8] != VERSION || d.subrange(12, 44) != legacy_wallet
        || d.subrange(44, 76) != pq_quorum_program || d.subrange(76, 108) != quorum {
        Err(PqMigrationRegistryError::InvalidSmartAccount)
    } else {
        exact_pda_check(smart_account_seeds(legacy_wallet, pq_quorum_program, quorum, d[9]), smart_program, smart_account)
    }
}

/// Checks the smart account being bound.
pub fn validate_smart_account_binding(smart_program: &[u8; 32], legacy_wallet: &[u8; 32], smart_account: &[u8; 32], data: &[u8],
    pq_quorum_program: &[u8; 32], quorum: &[u8; 32]) -> (res: Result<(), PqMigrationRegistryError>)
    ensures
        res == smart_binding_check(smart_program@, legacy_wallet@, smart_account@, data@, pq_quorum_program@, quorum@),
{
    if data.len() != SMART_ACCOUNT_LEN || !bytes_eq(&data[0..8], SMART_ACCOUNT_DISCRIMINATOR.as_slice()) || data[8] != VERSION
        || !bytes_eq(&data[12..44], legacy_wallet.as_slice()) || !bytes_eq(&data[44..76], pq_quorum_program.as_slice())
        || !bytes_eq(&data[76..108], quorum.as_slice()) {
        return Err(PqMigrationRegistryError::InvalidSmartAccount);
    }
    let bump_bytes = [data[9]];
    let seeds: [&[u8]; 5] = [SMART_ACCOUNT_SEED.as_slice(), legacy_wallet.as_slice(), pq_quorum_program.as_slice(), quorum.as_slice(), bump_bytes.as_slice()];
    proof {
        assert(bump_bytes@ =~= seq![data@[9]]);
        assert(seeds_view(seeds@) =~= smart_account_seeds(legacy_wallet@, pq_quorum_program@, quorum@, data@[9]));
    }
    check_exact_pda(seeds.as_slice(), smart_program, smart_account)
}

/// An existing registry belongs to the wallet and was created with this bump.
pub open spec fn registry_header_ok(legacy_wallet: Seq<u8>, d: Seq<u8>, bump: u8) -> bool {
    d.len() >= 44 && d.subrange(0, 8) == REGISTRY_DISCRIMINATOR@ && d[8] == VERSION && d[9] == bump && d.subrange(12, 44) == legacy_wallet
}

/// Checks an existing registry's header.
pub fn validate_existing_registry_header(legacy_wallet: &[u8; 32], data: &[u8], bump: u8) -> (res: Result<(), PqMigrationRegistryError>)
    ensures
        res is Ok <==> registry_header_ok(legacy_wallet@, data@, bump),
        res is Err ==> res == Err::<(), PqMigrationRegistryError>(PqMigrationRegistryError::InvalidAccountData),
{
    if data.len() < 44 || !bytes_eq(&data[0..8], REGISTRY_DISCRIMINATOR.as_slice()) || data[8] != VERSION || data[9] != bump
        || !bytes_eq(&data[12..44], legacy_wallet.as_slice()) {
        return Err(PqMigrationRegistryError::InvalidAccountData);
    }
    Ok(())
}

/// The registry account's contents.
pub open spec fn registry_account(bump: u8, legacy_wallet: Seq<u8>, smart_program: Seq<u8>, smart_account: Seq<u8>, pq_quorum_program: Seq<u8>,
    quorum: Seq<u8>) -> Seq<u8> {
    REGISTRY_DISCRIMINATOR@ + seq![VERSION, bump, 0u8, 0u8] + legacy_wallet + smart_program + smart_account + pq_quorum_program + quorum
}

/// Writes the registry account.
pub fn write_registry_state(data: &mut [u8], bump: u8, legacy_wallet: &[u8], smart_program: &[u8], smart_account: &[u8], pq_quorum_program: &[u8],
    quorum: &[u8]) -> (res: Result<(), PqMigrationRegistryError>)
    ensures
        res is Ok <==> (old(data)@.len() == REGISTRY_ACCOUNT_LEN && legacy_wallet@.len() == 32 && smart_program@.len() == 32 && smart_account@.len() == 32
            && pq_quorum_program@.len() == 32 && quorum@.len() == 32),
        res is Err ==> res == Err::<(), PqMigrationRegistryError>(PqMigrationRegistryError::InvalidAccountData) && final(data)@ == old(data)@,
        res is Ok ==> final(data)@ == registry_account(bump, legacy_wallet@, smart_program@, smart_account@, pq_quorum_program@, quorum@),
{
    if data.len() != REGISTRY_ACCOUNT_LEN || legacy_wallet.len() != 32 || smart_program.len() != 32 || smart_account.len() != 32
        || pq_quorum_program.len() != 32 || quorum.len() != 32 {
        return Err(PqMigrationRegistryError::InvalidAccountData);
    }
    write_bytes(data, 0, REGISTRY_DISCRIMINATOR.as_slice());
    data[8] = VERSION;
    data[9] = bump;
    fill_bytes(data, 10, 2, 0);
    write_bytes(data, 12, legacy_wallet);
    write_bytes(data, 44, smart_program);
    write_bytes(data, 76, smart_account);
    write_bytes(data, 108, pq_quorum_program);
    write_bytes(data, 140, quorum);
    proof {
        assert(data@ =~= registry_account(bump, legacy_wallet@, smart_program@, smart_account@, pq_quorum_program@, quorum@));
    }
    Ok(())
}

/// What a binding needs from the runtime: the bump, and whether the registry account must be
/// created first.
#[derive(Clone, Copy, PartialEq, Eq, Structural, Debug)]
pub struct BindPlan {
    pub bump: u8,
    pub create_registry: bool,
}

pub open spec fn bind_keys(accounts: Seq<AccountHeader>) -> Seq<[u8; 32]> {
    accounts.take(7).map_values(|a: AccountHeader| a.key)
}

/// Outcome of a binding's checks (accounts: legacy wallet, registry, smart account, smart
/// program, quorum program, quorum, system program).
pub open spec fn bind_outcome(program_id: Seq<u8>, accounts: Seq<AccountHeader>, smart_data: Seq<u8>, registry_data: Seq<u8>, data: Seq<u8>)
    -> Result<BindPlan, ProgramFailure> {
    if data.len() != 1 {
        Err(rfail(PqMigrationRegistryError::InvalidInstructionData))
    } else if accounts.len() < 7 {
        Err(ProgramFailure::NotEnoughAccountKeys)
    } else if !accounts[0].is_signer {
        Err(ProgramFailure::MissingRequiredSignature)
    } else if !accounts[0].is_writable || !accounts[1].is_writable {
        Err(ProgramFailure::InvalidAccountData)
    } else if !accounts[3].executable || !accounts[4].executable {
        Err(rfail(PqMigrationRegistryError::InvalidProgram))
    } else if accounts[2].owner@ != accounts[3].key@ || accounts[5].owner@ != accounts[4].key@ {
        Err(rfail(PqMigrationRegistryError::InvalidAccountOwner))
    } else if accounts[6].key@ != system_program_id() {
        Err(ProgramFailure::IncorrectProgramId)
    } else if !keys_distinct(bind_keys(accounts)) {
        Err(ProgramFailure::InvalidArgument)
    } else {
        let bump = data[0];
        match exact_pda_check(registry_seeds(accounts[0].key@, bump), program_id, accounts[1].key@) {
            Err(e) => Err(rfail(e)),
            Ok(_) => match smart_binding_check(accounts[3].key@, accounts[0].key@, accounts[2].key@, smart_data, accounts[4].key@, accounts[5].key@) {
                Err(e) => Err(rfail(e)),
                Ok(_) => if accounts[1].owner@ == system_program_id() && registry_data.len() == 0 {
                    Ok(BindPlan { bump, create_registry: true })
                } else if accounts[1].owner@ != program_id {
                    Err(rfail(PqMigrationRegistryError::InvalidAccountOwner))
                } else if registry_data.len() != REGISTRY_ACCOUNT_LEN || !registry_header_ok(accounts[0].key@, registry_data, bump) {
                    Err(rfail(PqMigrationRegistryError::InvalidAccountData))
                } else {
                    Ok(BindPlan { bump, create_registry: false })
                },
            },
        }
    }
}

/// Checks a binding; afterwards the runtime creates the registry if planned, and
/// `write_registry_state` records the binding.
pub fn plan_bind(program_id: &[u8; 32], accounts: &[AccountHeader], smart_data: &[u8], registry_data: &[u8], data: &[u8]) -> (res: Result<BindPlan, ProgramFailure>)
    ensures
        res == bind_outcome(program_id@, accounts@, smart_data@, registry_data@, data@),
{
    if data.len() != 1 {
        return Err(PqMigrationRegistryError::InvalidInstructionData.into_failure());
    }
    if accounts.len() < 7 {
        return Err(ProgramFailure::NotEnoughAccountKeys);
    }
    let legacy = accounts[0];
    let registry = accounts[1];
    let smart_account = accounts[2];
    let smart_program = accounts[3];
    let pq_program = accounts[4];
    let quorum = accounts[5];
    let system = accounts[6];
    let bump = data[0];
    if !legacy.is_signer {
        return Err(ProgramFailure::MissingRequiredSignature);
    }
    if !legacy.is_writable || !registry.is_writable {
        return Err(ProgramFailure::InvalidAccountData);
    }
    if !smart_program.executable || !pq_program.executable {
        return Err(PqMigrationRegistryError::InvalidProgram.into_failure());
    }
    if !keys_eq(&smart_account.owner, &smart_program.key) || !keys_eq(&quorum.owner, &pq_program.key) {
        return Err(PqMigrationRegistryError::InvalidAccountOwner.into_failure());
    }
    if !is_system_program(&system.key) {
        return Err(ProgramFailure::IncorrectProgramId);
    }
    let keys = [legacy.key, registry.key, smart_account.key, smart_program.key, pq_program.key, quorum.key, system.key];
    proof {
        assert(keys@ =~= bind_keys(accounts@));
    }
    reject_duplicate_runtime_accounts(keys.as_slice())?;
    match validate_registry_pda(program_id, &legacy.key, &registry.key, bump) {
        Err(e) => { return Err(e.into_failure()); },
        Ok(_) => {},
    }
    match validate_smart_account_binding(&smart_program.key, &legacy.key, &smart_account.key, smart_data, &pq_program.key, &quorum.key) {
        Err(e) => { return Err(e.into_failure()); },
        Ok(_) => {},
    }
    if is_system_program(&registry.owner) && registry_data.len() == 0 {
        return Ok(BindPlan { bump, create_registry: true });
    }
    if !keys_eq(&registry.owner, program_id) {
        return Err(PqMigrationRegistryError::InvalidAccountOwner.into_failure());
    }
    if registry_data.len() != REGISTRY_ACCOUNT_LEN {
        return Err(PqMigrationRegistryError::InvalidAccountData.into_failure());
    }
    match validate_existing_registry_header(&legacy.key, registry_data, bump) {
        Err(e) => Err(e.into_failure()),
        Ok(_) => Ok(BindPlan { bump, create_registry: false }),
    }
}

/// A written registry passes the header check of a later binding by the same wallet with the
/// same bump, so a wallet can rebind to a new smart account.
pub proof fn law_registry_rebind(bump: u8, legacy_wallet: Seq<u8>, smart_program: Seq<u8>, smart_account: Seq<u8>, pq_quorum_program: Seq<u8>, quorum: Seq<u8>)
    requires
        legacy_wallet.len() == 32,
        smart_program.len() == 32,
        smart_account.len() == 32,
        pq_quorum_program.len() == 32,
        quorum.len() == 32,
    ensures
        registry_header_ok(legacy_wallet, registry_account(bump, legacy_wallet, smart_program, smart_account, pq_quorum_program, quorum), bump),
        registry_account(bump, legacy_wallet, smart_program, smart_account, pq_quorum_program, quorum).len() == REGISTRY_ACCOUNT_LEN,
{
    let d = registry_account(bump, legacy_wallet, smart_program, smart_account, pq_quorum_program, quorum);
    assert(d.subrange(0, 8) =~= REGISTRY_DISCRIMINATOR@);
    assert(d.subrange(12, 44) =~= legacy_wallet);
}

/// A binding is planned only when the signing legacy wallet's smart account is owned by the
/// given smart-account program and the quorum account is owned by the given quorum program,
/// both programs being executable and the last account the system program; once the signer,
/// writable and executable checks pass, a quorum account owned by anything else is refused as
/// a wrong owner.
pub proof fn law_bind_requires_program_owned_accounts(program_id: Seq<u8>, accounts: Seq<AccountHeader>, smart_data: Seq<u8>,
    registry_data: Seq<u8>, data: Seq<u8>)
    ensures
        bind_outcome(program_id, accounts, smart_data, registry_data, data) is Ok ==> {
            &&& data.len() == 1
            &&& accounts.len() >= 7
            &&& accounts[0].is_signer
            &&& accounts[0].is_writable && accounts[1].is_writable
            &&& accounts[3].executable && accounts[4].executable
            &&& accounts[2].owner@ == accounts[3].key@
            &&& accounts[5].owner@ == accounts[4].key@
            &&& accounts[6].key@ == system_program_id()
            &&& smart_binding_check(accounts[3].key@, accounts[0].key@, accounts[2].key@, smart_data, accounts[4].key@, accounts[5].key@) is Ok
        },
        data.len() == 1 && accounts.len() >= 7 && accounts[0].is_signer && accounts[0].is_writable && accounts[1].is_writable
            && accounts[3].executable && accounts[4].executable && accounts[5].owner@ != accounts[4].key@
            ==> bind_outcome(program_id, accounts, smart_data, registry_data, data)
                == Err::<BindPlan, ProgramFailure>(rfail(PqMigrationRegistryError::InvalidAccountOwner)),
{
}

/// A binding is planned only for the registry at the wallet's registry address with the
/// instruction's bump, with no account repeated, and a smart account that stores this wallet,
/// quorum program and quorum and sits at its smart account address under the stored bump. It
/// creates the registry exactly when the registry is still an empty system account; otherwise
/// the registry must be the program's full-size registry of this wallet made with this bump.
pub proof fn law_bind_registry_requirements(program_id: Seq<u8>, accounts: Seq<AccountHeader>, smart_data: Seq<u8>,
    registry_data: Seq<u8>, data: Seq<u8>)
    ensures
        bind_outcome(program_id, accounts, smart_data, registry_data, data) matches Ok(plan) ==> {
            &&& plan.bump == data[0]
            &&& keys_distinct(bind_keys(accounts))
            &&& exact_pda_check(registry_seeds(accounts[0].key@, data[0]), program_id, accounts[1].key@) is Ok
            &&& smart_data.len() == SMART_ACCOUNT_LEN
            &&& smart_data.subrange(0, 8) == SMART_ACCOUNT_DISCRIMINATOR@
            &&& smart_data.subrange(12, 44) == accounts[0].key@
            &&& smart_data.subrange(44, 76) == accounts[4].key@
            &&& smart_data.subrange(76, 108) == accounts[5].key@
            &&& exact_pda_check(smart_account_seeds(accounts[0].key@, accounts[4].key@, accounts[5].key@, smart_data[9]), accounts[3].key@,
                accounts[2].key@) is Ok
            &&& plan.create_registry == (accounts[1].owner@ == system_program_id() && registry_data.len() == 0)
            &&& !plan.create_registry ==> {
                &&& accounts[1].owner@ == program_id
                &&& registry_data.len() == REGISTRY_ACCOUNT_LEN
                &&& registry_header_ok(accounts[0].key@, registry_data, data[0])
            }
        },
{
}

} // verus!
