// ---------------------------------------------------------------------------------------
// A small in-process runtime: it keeps the accounts of one instruction, runs the programs'
// checks and state changes through the library, and performs their calls into each other,
// into the system program and into the SPL token program.

use solana_falcon_auth::runtime::{AccountHeader, ProgramFailure as ProgramError};
use solana_program::pubkey::Pubkey;
use solana_program::rent::Rent;
use std::collections::HashMap;
use solana_falcon_auth as sfa;

#[derive(Clone, Debug, PartialEq, Default)]
struct Account {
    lamports: u64,
    data: Vec<u8>,
    owner: Pubkey,
    executable: bool,
    rent_epoch: u64,
}

impl Account {
    #[allow(dead_code)]
    fn new(lamports: u64, space: usize, owner: &Pubkey) -> Self {
        Account { lamports, data: vec![0u8; space], owner: *owner, executable: false, rent_epoch: 0 }
    }
}

#[derive(Clone, Debug)]
struct AccountMeta {
    pubkey: Pubkey,
    is_signer: bool,
    is_writable: bool,
}

impl AccountMeta {
    fn new(pubkey: Pubkey, is_signer: bool) -> Self {
        AccountMeta { pubkey, is_signer, is_writable: true }
    }

    #[allow(dead_code)]
    fn new_readonly(pubkey: Pubkey, is_signer: bool) -> Self {
        AccountMeta { pubkey, is_signer, is_writable: false }
    }
}

#[derive(Clone, Debug)]
struct Instruction {
    program_id: Pubkey,
    accounts: Vec<AccountMeta>,
    data: Vec<u8>,
}

impl Instruction {
    fn new_with_bytes(program_id: Pubkey, data: &[u8], accounts: Vec<AccountMeta>) -> Self {
        Instruction { program_id, accounts, data: data.to_vec() }
    }
}

#[derive(Clone, Debug, PartialEq)]
enum SvmResult {
    Success,
    Failure(ProgramError),
}

impl SvmResult {
    fn is_ok(&self) -> bool {
        *self == SvmResult::Success
    }
}

#[allow(dead_code)]
struct InstructionResult {
    program_result: SvmResult,
    raw_result: Result<(), ProgramError>,
    resulting_accounts: Vec<(Pubkey, Account)>,
}

struct Clock {
    slot: u64,
}

struct Sysvars {
    clock: Clock,
    rent: Rent,
}

#[derive(Clone, Copy, PartialEq, Debug)]
enum Program {
    FalconAuth,
    Vault,
    Consumer,
    Registry,
    Quorum,
    SmartAccount,
    Token,
}

struct Mollusk {
    sysvars: Sysvars,
    programs: Vec<(Pubkey, Program)>,
}

fn program_named(elf: &str) -> Program {
    let name = elf.rsplit('/').next().unwrap();
    match name {
        "falcon_auth" => Program::FalconAuth,
        "falcon_vault" => Program::Vault,
        "example_consumer" => Program::Consumer,
        "pq_migration_registry" => Program::Registry,
        "pq_quorum_auth" => Program::Quorum,
        "pq_smart_account" => Program::SmartAccount,
        "spl_token" => Program::Token,
        other => panic!("unknown program {other}"),
    }
}

#[allow(dead_code)]
impl Mollusk {
    fn new(program_id: &Pubkey, elf: &str) -> Self {
        Mollusk {
            sysvars: Sysvars { clock: Clock { slot: 0 }, rent: Rent::default() },
            programs: vec![(*program_id, program_named(elf))],
        }
    }

    fn add_program(&mut self, program_id: &Pubkey, elf: &str) {
        self.programs.push((*program_id, program_named(elf)));
    }

    fn warp_to_slot(&mut self, slot: u64) {
        self.sysvars.clock.slot = slot;
    }

    fn process_instruction(&self, ix: &Instruction, accounts: &[(Pubkey, Account)]) -> InstructionResult {
        let mut world = World {
            accounts: accounts.iter().cloned().collect(),
            programs: self.programs.clone(),
            slot: self.sysvars.clock.slot,
            rent: self.sysvars.rent.clone(),
            signers: ix.accounts.iter().filter(|m| m.is_signer).map(|m| m.pubkey).collect(),
        };
        let result = world.exec(ix, 0);
        let resulting_accounts = match result {
            Ok(()) => accounts.iter().map(|(k, a)| (*k, world.accounts.get(k).cloned().unwrap_or_else(|| a.clone()))).collect(),
            Err(_) => accounts.to_vec(),
        };
        InstructionResult {
            program_result: match result { Ok(()) => SvmResult::Success, Err(e) => SvmResult::Failure(e) },
            raw_result: result,
            resulting_accounts,
        }
    }
}

#[allow(dead_code)]
fn keyed_account_for_system_program() -> (Pubkey, Account) {
    (solana_system_interface::program::id(), Account {
        lamports: 1,
        data: b"solana_system_program".to_vec(),
        owner: solana_program::bpf_loader::id(),
        executable: true,
        rent_epoch: 0,
    })
}

struct World {
    accounts: HashMap<Pubkey, Account>,
    programs: Vec<(Pubkey, Program)>,
    slot: u64,
    rent: Rent,
    signers: Vec<Pubkey>,
}

fn key32(k: &Pubkey) -> [u8; 32] {
    k.to_bytes()
}

fn pk(k: &[u8; 32]) -> Pubkey {
    Pubkey::new_from_array(*k)
}

fn rd64(d: &[u8], at: usize) -> u64 {
    u64::from_le_bytes(d[at..at + 8].try_into().unwrap())
}

#[allow(dead_code)]
impl World {
    fn acc(&self, k: &Pubkey) -> Account {
        self.accounts.get(k).cloned().unwrap_or_else(|| Account::new(0, 0, &solana_system_interface::program::id()))
    }

    fn data(&self, k: &Pubkey) -> Vec<u8> {
        self.acc(k).data
    }

    fn set_data(&mut self, k: &Pubkey, d: Vec<u8>) {
        let mut a = self.acc(k);
        a.data = d;
        self.accounts.insert(*k, a);
    }

    fn lamports(&self, k: &Pubkey) -> u64 {
        self.acc(k).lamports
    }

    fn set_lamports(&mut self, k: &Pubkey, v: u64) {
        let mut a = self.acc(k);
        a.lamports = v;
        self.accounts.insert(*k, a);
    }

    fn headers(&self, metas: &[AccountMeta]) -> Vec<AccountHeader> {
        metas.iter().map(|m| {
            let a = self.acc(&m.pubkey);
            AccountHeader {
                key: key32(&m.pubkey),
                owner: key32(&a.owner),
                lamports: a.lamports,
                is_signer: m.is_signer,
                is_writable: m.is_writable,
                executable: a.executable,
            }
        }).collect()
    }

    fn program_of(&self, k: &Pubkey) -> Option<Program> {
        self.programs.iter().find(|(p, _)| p == k).map(|(_, kind)| *kind)
    }

    /// The system program's `create_account`, paid by `payer`, for `space` bytes owned by
    /// `owner`.
    fn create_account(&mut self, payer: &Pubkey, new: &Pubkey, space: usize, owner: &Pubkey) -> Result<(), ProgramError> {
        let lamports = self.rent.minimum_balance(space);
        let target = self.acc(new);
        if !target.data.is_empty() || target.owner != solana_system_interface::program::id() {
            return Err(ProgramError::Custom(0));
        }
        let from = self.lamports(payer).checked_sub(lamports).ok_or(ProgramError::Custom(1))?;
        self.set_lamports(payer, from);
        let mut a = self.acc(new);
        a.lamports += lamports;
        a.data = vec![0u8; space];
        a.owner = *owner;
        self.accounts.insert(*new, a);
        Ok(())
    }

    /// The system program's `transfer`.
    fn transfer(&mut self, from: &Pubkey, to: &Pubkey, lamports: u64) -> Result<(), ProgramError> {
        let f = self.lamports(from).checked_sub(lamports).ok_or(ProgramError::Custom(1))?;
        self.set_lamports(from, f);
        let t = self.lamports(to) + lamports;
        self.set_lamports(to, t);
        Ok(())
    }

    fn exec(&mut self, ix: &Instruction, depth: usize) -> Result<(), ProgramError> {
        assert!(depth < 5);
        let snapshot = self.accounts.clone();
        let kind = match self.program_of(&ix.program_id) {
            Some(k) => k,
            None => return Err(ProgramError::IncorrectProgramId),
        };
        let result = match kind {
            Program::FalconAuth => self.run_falcon_auth(ix),
            Program::Vault => self.run_vault(ix, depth),
            Program::Consumer => self.run_consumer(ix, depth),
            Program::Registry => self.run_registry(ix),
            Program::Quorum => self.run_quorum(ix, depth),
            Program::SmartAccount => self.run_smart_account(ix, depth),
            Program::Token => self.run_token(ix),
        };
        if result.is_err() {
            self.accounts = snapshot;
        }
        result
    }
}

fn meta_key(ix: &Instruction, i: usize) -> Pubkey {
    ix.accounts.get(i).map(|m| m.pubkey).unwrap_or_default()
}

#[allow(dead_code)]
impl World {
    fn data_at(&self, ix: &Instruction, i: usize) -> Vec<u8> {
        match ix.accounts.get(i) {
            Some(m) => self.data(&m.pubkey),
            None => Vec::new(),
        }
    }

    fn cpi(&mut self, program: Pubkey, accounts: Vec<AccountMeta>, data: Vec<u8>, depth: usize) -> Result<(), ProgramError> {
        self.exec(&Instruction { program_id: program, accounts, data }, depth + 1)
    }

    fn run_falcon_auth(&mut self, ix: &Instruction) -> Result<(), ProgramError> {
        let kind = sfa::dispatch::decode_falcon_auth_instruction(&ix.data)?;
        let pid = key32(&ix.program_id);
        let h = self.headers(&ix.accounts);
        let rest = &ix.data[1..];
        let k0 = meta_key(ix, 0);
        let k1 = meta_key(ix, 1);
        let mut d = self.data_at(ix, 1);
        match kind {
            sfa::dispatch::FalconAuthInstruction::RegisterKey => {
                let plan = sfa::falcon_auth::plan_register_key(&pid, &h, &d, rest)?;
                self.create_account(&k0, &k1, sfa::falcon_auth::FALCON_KEY_ACCOUNT_LEN, &ix.program_id)?;
                let mut fresh = self.data(&k1);
                sfa::falcon_auth::write_pending_falcon_key_account(&mut fresh, plan.bump, plan.cluster, k0.as_ref())?;
                self.set_data(&k1, fresh);
            }
            sfa::dispatch::FalconAuthInstruction::VerifyAction => {
                sfa::falcon_auth::process_verify_action(&pid, &h, &mut d, rest, self.slot)?;
                self.set_data(&k1, d);
            }
            sfa::dispatch::FalconAuthInstruction::RotateKey => {
                sfa::falcon_auth::process_rotate_key(&pid, &h, &mut d, rest)?;
                self.set_data(&k1, d);
            }
            sfa::dispatch::FalconAuthInstruction::CloseKey => {
                let total = sfa::falcon_auth::process_close_key(&pid, &h, &mut d, rest)?;
                self.set_data(&k1, d);
                self.set_lamports(&k0, total);
                self.set_lamports(&k1, 0);
            }
            sfa::dispatch::FalconAuthInstruction::WriteKeyChunk => {
                sfa::falcon_auth::process_write_key_chunk(&pid, &h, &mut d, rest)?;
                self.set_data(&k1, d);
            }
            sfa::dispatch::FalconAuthInstruction::FinalizeKey => {
                sfa::falcon_auth::process_finalize_key(&pid, &h, &mut d, rest)?;
                self.set_data(&k1, d);
            }
        }
        Ok(())
    }

    fn run_vault(&mut self, ix: &Instruction, depth: usize) -> Result<(), ProgramError> {
        let kind = sfa::dispatch::decode_vault_instruction(&ix.data)?;
        let pid = key32(&ix.program_id);
        let h = self.headers(&ix.accounts);
        let rest = &ix.data[1..];
        match kind {
            sfa::dispatch::VaultInstruction::InitVault => {
                let bump = sfa::vault::plan_init_vault(&pid, &h, self.data_at(ix, 1).len(), rest)?;
                let (authority, vault, falcon_program) = (meta_key(ix, 0), meta_key(ix, 1), meta_key(ix, 2));
                self.create_account(&authority, &vault, sfa::vault::VAULT_ACCOUNT_LEN, &ix.program_id)?;
                let mut d = self.data(&vault);
                sfa::vault::write_vault_state(&mut d, bump, authority.as_ref(), falcon_program.as_ref(), 0)?;
                self.set_data(&vault, d);
            }
            sfa::dispatch::VaultInstruction::Deposit => {
                let lamports = sfa::vault::plan_deposit(&pid, &h, &self.data_at(ix, 1), rest)?;
                self.transfer(&meta_key(ix, 0), &meta_key(ix, 1), lamports)?;
            }
            sfa::dispatch::VaultInstruction::WithdrawWithFalcon => {
                let rent_minimum = self.rent.minimum_balance(sfa::vault::VAULT_ACCOUNT_LEN);
                let plan = sfa::vault::plan_withdraw_with_falcon(&pid, &h, &self.data_at(ix, 2), rest, rent_minimum)?;
                let (authority, falcon_key, vault, destination, falcon_program) =
                    (meta_key(ix, 0), meta_key(ix, 1), meta_key(ix, 2), meta_key(ix, 3), meta_key(ix, 4));
                self.cpi(falcon_program, vec![AccountMeta::new_readonly(authority, false), AccountMeta::new(falcon_key, false)],
                    plan.falcon_ix.clone(), depth)?;
                let mut d = self.data(&vault);
                sfa::vault::commit_withdraw(&pid, &key32(&vault), &key32(&authority), &key32(&falcon_program), &mut d, plan.withdraw_count)
                    .map_err(|e| e.into_failure())?;
                self.set_data(&vault, d);
                self.set_lamports(&vault, plan.vault_lamports);
                self.set_lamports(&destination, plan.destination_lamports);
            }
        }
        Ok(())
    }

    fn run_consumer(&mut self, ix: &Instruction, depth: usize) -> Result<(), ProgramError> {
        let kind = sfa::dispatch::decode_consumer_instruction(&ix.data)?;
        let pid = key32(&ix.program_id);
        let h = self.headers(&ix.accounts);
        let rest = &ix.data[1..];
        match kind {
            sfa::dispatch::ConsumerInstruction::InitCounter => {
                sfa::consumer::plan_init_counter(&pid, &h, self.data_at(ix, 1).len(), rest)?;
                let (authority, counter, falcon_program) = (meta_key(ix, 0), meta_key(ix, 1), meta_key(ix, 2));
                self.create_account(&authority, &counter, sfa::consumer::COUNTER_ACCOUNT_LEN, &ix.program_id)?;
                let mut d = self.data(&counter);
                sfa::consumer::write_counter_state(&mut d, authority.as_ref(), falcon_program.as_ref(), 0)?;
                self.set_data(&counter, d);
            }
            sfa::dispatch::ConsumerInstruction::IncrementWithFalcon => {
                let (falcon_ix, current) = sfa::consumer::plan_increment_with_falcon(&pid, &h, &self.data_at(ix, 2), rest)?;
                let (authority, falcon_key, counter, falcon_program) = (meta_key(ix, 0), meta_key(ix, 1), meta_key(ix, 2), meta_key(ix, 3));
                self.cpi(falcon_program, vec![AccountMeta::new_readonly(authority, false), AccountMeta::new(falcon_key, false)], falcon_ix, depth)?;
                let amount = rd64(rest, 17);
                let executable = self.acc(&falcon_program).executable;
                let mut d = self.data(&counter);
                sfa::consumer::commit_increment(&pid, &key32(&counter), &key32(&authority), &key32(&falcon_program), executable, &mut d, current, amount)
                    .map_err(|e| e.into_failure())?;
                self.set_data(&counter, d);
            }
        }
        Ok(())
    }

    fn run_registry(&mut self, ix: &Instruction) -> Result<(), ProgramError> {
        let kind = sfa::dispatch::decode_registry_instruction(&ix.data)?;
        let pid = key32(&ix.program_id);
        let h = self.headers(&ix.accounts);
        let rest = &ix.data[1..];
        match kind {
            sfa::dispatch::RegistryInstruction::Bind => {
                let plan = sfa::registry::plan_bind(&pid, &h, &self.data_at(ix, 2), &self.data_at(ix, 1), rest)?;
                let (wallet, registry, smart_account, smart_program, pq_quorum_program, quorum) =
                    (meta_key(ix, 0), meta_key(ix, 1), meta_key(ix, 2), meta_key(ix, 3), meta_key(ix, 4), meta_key(ix, 5));
                if plan.create_registry {
                    self.create_account(&wallet, &registry, sfa::registry::REGISTRY_ACCOUNT_LEN, &ix.program_id)?;
                }
                let mut d = self.data(&registry);
                sfa::registry::write_registry_state(&mut d, plan.bump, wallet.as_ref(), smart_program.as_ref(), smart_account.as_ref(),
                    pq_quorum_program.as_ref(), quorum.as_ref()).map_err(|e| e.into_failure())?;
                self.set_data(&registry, d);
            }
        }
        Ok(())
    }

    /// Closes a program account into `authority` (the quorum program's rule: the first eight
    /// bytes are cleared and all lamports move).
    fn close_into(&mut self, account: &Pubkey, authority: &Pubkey) -> Result<(), ProgramError> {
        let mut d = self.data(account);
        let total = sfa::quorum::approve::close_program_account_to_authority(&mut d, self.lamports(account), self.lamports(authority))
            .map_err(|e| e.into_failure())?;
        self.set_data(account, d);
        self.set_lamports(authority, total);
        self.set_lamports(account, 0);
        Ok(())
    }

    fn run_quorum(&mut self, ix: &Instruction, depth: usize) -> Result<(), ProgramError> {
        use_quorum(self, ix, depth)
    }
}

fn use_quorum(w: &mut World, ix: &Instruction, depth: usize) -> Result<(), ProgramError> {
    let kind = sfa::dispatch::decode_quorum_instruction(&ix.data)?;
    let pid = key32(&ix.program_id);
    let h = w.headers(&ix.accounts);
    let rest = &ix.data[1..];
    let k = |i: usize| meta_key(ix, i);
    match kind {
        sfa::dispatch::QuorumInstruction::RegisterQuorum => {
            let r = sfa::quorum::setup::plan_register_quorum(&pid, &h, &w.data_at(ix, 1), rest)?;
            w.create_account(&k(0), &k(1), sfa::quorum::state::QUORUM_ACCOUNT_LEN, &ix.program_id)?;
            let mut d = w.data(&k(1));
            sfa::quorum::state::write_quorum_state(&mut d, r.bump, r.cluster, k(0).as_ref(), k(3).as_ref(), k(2).as_ref(), &r.winternitz_root, 0)?;
            w.set_data(&k(1), d);
        }
        sfa::dispatch::QuorumInstruction::VerifyFalconWinternitz => {
            let plan = sfa::quorum::approve::plan_verify_falcon_winternitz(&pid, &h, &w.data_at(ix, 1), &w.data_at(ix, 4), rest, w.slot)?;
            finish_approval(w, ix, &pid, plan, &[4], depth)?;
        }
        sfa::dispatch::QuorumInstruction::InitWinternitzSignature => {
            let (bump, nonce) = sfa::quorum::setup::plan_init_winternitz_signature(&pid, &h, &w.data_at(ix, 1), &w.data_at(ix, 2), rest)?;
            w.create_account(&k(0), &k(2), sfa::quorum::wots::WINTERNITZ_SIGNATURE_BUFFER_LEN, &ix.program_id)?;
            let mut d = w.data(&k(2));
            sfa::quorum::wots::write_signature_buffer_header(&mut d, bump, k(0).as_ref(), k(1).as_ref(), nonce)?;
            w.set_data(&k(2), d);
        }
        sfa::dispatch::QuorumInstruction::WriteWinternitzSignatureChunk => {
            let mut d = w.data_at(ix, 2);
            sfa::quorum::wots::process_write_winternitz_signature_chunk(&pid, &h, &w.data_at(ix, 1), &mut d, rest)?;
            w.set_data(&k(2), d);
        }
        sfa::dispatch::QuorumInstruction::InitMldsaPublicKey => {
            let bump = sfa::quorum::setup::plan_init_mldsa_public_key(&pid, &h, &w.data_at(ix, 1), &w.data_at(ix, 2), rest)?;
            w.create_account(&k(0), &k(2), sfa::quorum::mldsa_proof::MLDSA_PUBLIC_KEY_BUFFER_LEN, &ix.program_id)?;
            let mut d = w.data(&k(2));
            sfa::quorum::mldsa_proof::write_mldsa_buffer_header(&mut d, &sfa::quorum::mldsa_proof::MLDSA_PUBLIC_KEY_DISCRIMINATOR, bump,
                k(0).as_ref(), k(1).as_ref(), 0)?;
            w.set_data(&k(2), d);
        }
        sfa::dispatch::QuorumInstruction::WriteMldsaPublicKeyChunk => {
            let mut d = w.data_at(ix, 2);
            sfa::quorum::setup::process_write_mldsa_public_key_chunk(&pid, &h, &w.data_at(ix, 1), &mut d, rest)?;
            w.set_data(&k(2), d);
        }
        sfa::dispatch::QuorumInstruction::InitMldsaSignature => {
            let (bump, nonce) = sfa::quorum::setup::plan_init_mldsa_signature(&pid, &h, &w.data_at(ix, 1), &w.data_at(ix, 2), rest)?;
            w.create_account(&k(0), &k(2), sfa::quorum::mldsa_proof::MLDSA_SIGNATURE_BUFFER_LEN, &ix.program_id)?;
            let mut d = w.data(&k(2));
            sfa::quorum::mldsa_proof::write_mldsa_buffer_header(&mut d, &sfa::quorum::mldsa_proof::MLDSA_SIGNATURE_DISCRIMINATOR, bump,
                k(0).as_ref(), k(1).as_ref(), nonce)?;
            w.set_data(&k(2), d);
        }
        sfa::dispatch::QuorumInstruction::WriteMldsaSignatureChunk => {
            let mut d = w.data_at(ix, 2);
            sfa::quorum::setup::process_write_mldsa_signature_chunk(&pid, &h, &w.data_at(ix, 1), &mut d, rest)?;
            w.set_data(&k(2), d);
        }
        sfa::dispatch::QuorumInstruction::FinalizeMldsaPublicKey => {
            let mut d = w.data_at(ix, 2);
            sfa::quorum::setup::process_finalize_mldsa_public_key(&pid, &h, &w.data_at(ix, 1), &mut d, rest)?;
            w.set_data(&k(2), d);
        }
        sfa::dispatch::QuorumInstruction::InitMldsaProof => {
            let p = sfa::quorum::setup::plan_init_mldsa_proof(&pid, &h, &w.data_at(ix, 1), &w.data_at(ix, 3), &w.data_at(ix, 4), &w.data_at(ix, 2), rest)?;
            w.create_account(&k(0), &k(2), sfa::quorum::mldsa_proof::MLDSA_PROOF_ACCOUNT_LEN, &ix.program_id)?;
            let mut d = w.data(&k(2));
            sfa::quorum::mldsa_proof::write_mldsa_proof_state(&mut d, p.bump, p.mode, k(0).as_ref(), k(1).as_ref(), p.quorum_nonce, k(3).as_ref(),
                k(4).as_ref(), &p.payload_hash)?;
            w.set_data(&k(2), d);
        }
        sfa::dispatch::QuorumInstruction::PrepareMldsaProof
        | sfa::dispatch::QuorumInstruction::PrepareMldsaZColumn
        | sfa::dispatch::QuorumInstruction::ProveMldsaColumn
        | sfa::dispatch::QuorumInstruction::FinalizeMldsaRow => {
            let mut d = w.data_at(ix, 2);
            let key_data = w.data_at(ix, 3);
            if !sfa::quorum::mldsa_proof::proof_in_range(&d) || !sfa::quorum::mldsa_proof::key_buffer_in_range(&key_data) {
                return Err(sfa::quorum::state::PqQuorumAuthError::InvalidMldsaProof.into_failure());
            }
            let q = w.data_at(ix, 1);
            let s = w.data_at(ix, 4);
            match kind {
                sfa::dispatch::QuorumInstruction::PrepareMldsaProof =>
                    sfa::quorum::mldsa_proof::process_prepare_mldsa_proof(&pid, &h, &q, &key_data, &s, &mut d, rest)?,
                sfa::dispatch::QuorumInstruction::PrepareMldsaZColumn =>
                    sfa::quorum::mldsa_proof::process_prepare_mldsa_z_column(&pid, &h, &q, &key_data, &s, &mut d, rest)?,
                sfa::dispatch::QuorumInstruction::ProveMldsaColumn =>
                    sfa::quorum::mldsa_proof::process_prove_mldsa_column(&pid, &h, &q, &key_data, &s, &mut d, rest)?,
                _ => sfa::quorum::mldsa_proof::process_finalize_mldsa_row(&pid, &h, &q, &key_data, &s, &mut d, rest)?,
            }
            w.set_data(&k(2), d);
        }
        sfa::dispatch::QuorumInstruction::VerifyFalconMldsaProof => {
            let plan = sfa::quorum::approve::plan_verify_falcon_mldsa_proof(&pid, &h, &w.data_at(ix, 1), &w.data_at(ix, 4), &w.data_at(ix, 5),
                &w.data_at(ix, 6), rest, w.slot)?;
            finish_approval(w, ix, &pid, plan, &[5, 6], depth)?;
        }
        sfa::dispatch::QuorumInstruction::VerifyWinternitzMldsaProof => {
            let plan = sfa::quorum::approve::plan_verify_winternitz_mldsa_proof(&pid, &h, &w.data_at(ix, 1), &w.data_at(ix, 4), &w.data_at(ix, 5),
                &w.data_at(ix, 6), &w.data_at(ix, 7), rest, w.slot)?;
            finish_approval(w, ix, &pid, plan, &[4, 6, 7], depth)?;
        }
    }
    Ok(())
}

/// After an approval's checks: the Falcon call, the quorum advance, then the buffers that
/// close (`closing` lists the Winternitz buffer first when there is one).
fn finish_approval(w: &mut World, ix: &Instruction, pid: &[u8; 32], plan: sfa::quorum::approve::ApprovalPlan, closing: &[usize], depth: usize)
    -> Result<(), ProgramError> {
    let k = |i: usize| meta_key(ix, i);
    if let Some(falcon_ix) = plan.falcon_ix {
        w.cpi(k(3), vec![AccountMeta::new_readonly(k(0), false), AccountMeta::new(k(2), false)], falcon_ix, depth)?;
    }
    let mut q = w.data(&k(1));
    sfa::quorum::state::advance_quorum_nonce(pid, &key32(&k(0)), &key32(&k(1)), &key32(&k(3)), &key32(&k(2)), &mut q, plan.quorum_nonce,
        plan.next_root.as_ref()).map_err(|e| e.into_failure())?;
    w.set_data(&k(1), q);
    for (n, index) in closing.iter().enumerate() {
        let is_winternitz = n == 0 && closing.len() != 2;
        let close = if is_winternitz { plan.close_winternitz_buffer } else { plan.close_mldsa_buffers };
        if close {
            w.close_into(&k(*index), &k(0))?;
        }
    }
    Ok(())
}

#[allow(dead_code)]
impl World {
    fn run_smart_account(&mut self, ix: &Instruction, depth: usize) -> Result<(), ProgramError> {
        use_smart_account(self, ix, depth)
    }

    fn run_token(&mut self, ix: &Instruction) -> Result<(), ProgramError> {
        use_token(self, ix)
    }
}

fn use_smart_account(w: &mut World, ix: &Instruction, depth: usize) -> Result<(), ProgramError> {
    let kind = sfa::dispatch::decode_smart_account_instruction(&ix.data)?;
    let pid = key32(&ix.program_id);
    let h = w.headers(&ix.accounts);
    let rest = &ix.data[1..];
    let k = |i: usize| meta_key(ix, i);
    let rent_minimum = w.rent.minimum_balance(sfa::smart_account::state::SMART_ACCOUNT_LEN);
    let w_ = |i: usize| AccountMeta::new(meta_key(ix, i), false);
    let r_ = |i: usize| AccountMeta::new_readonly(meta_key(ix, i), false);
    match kind {
        sfa::dispatch::SmartAccountInstruction::InitAccount => {
            let bump = sfa::smart_account::setup::plan_init_account(&pid, &h, &w.data_at(ix, 1), rest)?;
            w.create_account(&k(0), &k(1), sfa::smart_account::state::SMART_ACCOUNT_LEN, &ix.program_id)?;
            let mut d = w.data(&k(1));
            sfa::smart_account::state::write_smart_account_state(&mut d, bump, k(0).as_ref(), k(2).as_ref(), k(3).as_ref(), 0)?;
            w.set_data(&k(1), d);
        }
        sfa::dispatch::SmartAccountInstruction::Deposit => {
            let lamports = sfa::smart_account::setup::plan_deposit(&pid, &h, &w.data_at(ix, 1), rest)?;
            w.transfer(&k(0), &k(1), lamports)?;
        }
        sfa::dispatch::SmartAccountInstruction::InitFalconSignature => {
            let (bump, nonce) = sfa::smart_account::setup::plan_init_falcon_signature(&pid, &h, &w.data_at(ix, 1), &w.data_at(ix, 4), rest)?;
            w.create_account(&k(0), &k(4), sfa::smart_account::state::FALCON_SIGNATURE_BUFFER_LEN, &ix.program_id)?;
            let mut d = w.data(&k(4));
            sfa::smart_account::state::write_falcon_signature_buffer_header(&mut d, bump, k(0).as_ref(), k(1).as_ref(), k(3).as_ref(), nonce)?;
            w.set_data(&k(4), d);
        }
        sfa::dispatch::SmartAccountInstruction::WriteFalconSignatureChunk => {
            let mut d = w.data_at(ix, 3);
            sfa::smart_account::setup::process_write_falcon_signature_chunk(&pid, &h, &mut d, rest)?;
            w.set_data(&k(3), d);
        }
        sfa::dispatch::SmartAccountInstruction::TransferFalconWinternitz => {
            let plan = sfa::smart_account::transfer::plan_transfer_falcon_winternitz(&pid, &h, &w.data_at(ix, 1), rest, rent_minimum)?;
            w.cpi(k(3), vec![w_(0), w_(4), w_(5), r_(6), w_(7)], plan.quorum_ix.clone(), depth)?;
            finish_sol_transfer(w, ix, plan, None)?;
        }
        sfa::dispatch::SmartAccountInstruction::TransferFalconMldsaProof => {
            let plan = sfa::smart_account::transfer::plan_transfer_falcon_mldsa_proof(&pid, &h, &w.data_at(ix, 1), rest, rent_minimum)?;
            w.cpi(k(3), vec![w_(0), w_(4), w_(5), r_(6), r_(7), w_(8), w_(9)], plan.quorum_ix.clone(), depth)?;
            finish_sol_transfer(w, ix, plan, None)?;
        }
        sfa::dispatch::SmartAccountInstruction::TransferFalconMldsaProofBuffered => {
            let plan = sfa::smart_account::transfer::plan_transfer_falcon_mldsa_proof_buffered(&pid, &h, &w.data_at(ix, 1), &w.data_at(ix, 10),
                rest, rent_minimum)?;
            w.cpi(k(3), vec![w_(0), w_(4), w_(5), r_(6), r_(7), w_(8), w_(9)], plan.quorum_ix.clone(), depth)?;
            finish_sol_transfer(w, ix, plan, Some(10))?;
        }
        sfa::dispatch::SmartAccountInstruction::TransferWinternitzMldsaProof => {
            let plan = sfa::smart_account::transfer::plan_transfer_winternitz_mldsa_proof(&pid, &h, &w.data_at(ix, 1), rest, rent_minimum)?;
            w.cpi(k(3), vec![w_(0), w_(4), r_(5), r_(6), w_(7), r_(8), w_(9), w_(10)], plan.quorum_ix.clone(), depth)?;
            finish_sol_transfer(w, ix, plan, None)?;
        }
        sfa::dispatch::SmartAccountInstruction::TransferSplTokenFalconWinternitz => {
            let plan = sfa::smart_account::transfer::plan_transfer_spl_token_falcon_winternitz(&pid, &h, &w.data_at(ix, 1), &w.data_at(ix, 4),
                &w.data_at(ix, 3), &w.data_at(ix, 5), rest)?;
            w.cpi(k(6), vec![w_(0), w_(7), w_(8), r_(9), w_(10)], plan.quorum_ix.clone(), depth)?;
            finish_token_transfer(w, ix, plan, None, depth)?;
        }
        sfa::dispatch::SmartAccountInstruction::TransferSplTokenFalconWinternitzBuffered => {
            let plan = sfa::smart_account::transfer::plan_transfer_spl_token_falcon_winternitz_buffered(&pid, &h, &w.data_at(ix, 1),
                &w.data_at(ix, 4), &w.data_at(ix, 3), &w.data_at(ix, 5), &w.data_at(ix, 11), rest)?;
            w.cpi(k(6), vec![w_(0), w_(7), w_(8), r_(9), w_(10)], plan.quorum_ix.clone(), depth)?;
            finish_token_transfer(w, ix, plan, Some(11), depth)?;
        }
        sfa::dispatch::SmartAccountInstruction::TransferSplTokenFalconMldsaProofBuffered => {
            let plan = sfa::smart_account::transfer::plan_transfer_spl_token_falcon_mldsa_proof_buffered(&pid, &h, &w.data_at(ix, 1),
                &w.data_at(ix, 4), &w.data_at(ix, 3), &w.data_at(ix, 5), &w.data_at(ix, 13), rest)?;
            w.cpi(k(6), vec![w_(0), w_(7), w_(8), r_(9), r_(10), w_(11), w_(12)], plan.quorum_ix.clone(), depth)?;
            finish_token_transfer(w, ix, plan, Some(13), depth)?;
        }
        sfa::dispatch::SmartAccountInstruction::TransferSplTokenWinternitzMldsaProof => {
            let plan = sfa::smart_account::transfer::plan_transfer_spl_token_winternitz_mldsa_proof(&pid, &h, &w.data_at(ix, 1),
                &w.data_at(ix, 4), &w.data_at(ix, 3), &w.data_at(ix, 5), rest)?;
            w.cpi(k(6), vec![w_(0), w_(7), r_(8), r_(9), w_(10), r_(11), w_(12), w_(13)], plan.quorum_ix.clone(), depth)?;
            finish_token_transfer(w, ix, plan, None, depth)?;
        }
    }
    Ok(())
}

fn close_smart_buffer(w: &mut World, buffer: &Pubkey, authority: &Pubkey) -> Result<(), ProgramError> {
    let mut d = w.data(buffer);
    let total = sfa::smart_account::state::close_falcon_signature_buffer(&mut d, w.lamports(buffer), w.lamports(authority))
        .map_err(|e| e.into_failure())?;
    w.set_data(buffer, d);
    w.set_lamports(authority, total);
    w.set_lamports(buffer, 0);
    Ok(())
}

fn finish_sol_transfer(w: &mut World, ix: &Instruction, plan: sfa::smart_account::transfer::SolTransferPlan, buffer: Option<usize>)
    -> Result<(), ProgramError> {
    let k = |i: usize| meta_key(ix, i);
    if plan.close_signature_buffer {
        close_smart_buffer(w, &k(buffer.unwrap()), &k(0))?;
    }
    let mut s = w.data(&k(1));
    sfa::smart_account::transfer::record_spend(&mut s, plan.spend_count).map_err(|e| e.into_failure())?;
    w.set_data(&k(1), s);
    w.set_lamports(&k(1), plan.remaining_lamports);
    w.set_lamports(&k(2), plan.next_destination_lamports);
    Ok(())
}

fn finish_token_transfer(w: &mut World, ix: &Instruction, plan: sfa::smart_account::transfer::TokenTransferPlan, buffer: Option<usize>,
    depth: usize) -> Result<(), ProgramError> {
    let k = |i: usize| meta_key(ix, i);
    let seeds: [&[u8]; 5] = [b"pq-smart", &plan.authority, &plan.pq_quorum_program, &plan.quorum, &[plan.smart_bump]];
    match Pubkey::create_program_address(&seeds, &ix.program_id) {
        Ok(signer) if signer == k(1) => {},
        _ => return Err(ProgramError::Custom(0)),
    }
    w.cpi(k(2), vec![AccountMeta::new(k(3), false), AccountMeta::new_readonly(k(4), false), AccountMeta::new(k(5), false),
        AccountMeta::new_readonly(k(1), true)], plan.token_ix.clone(), depth)?;
    if plan.close_signature_buffer {
        close_smart_buffer(w, &k(buffer.unwrap()), &k(0))?;
    }
    let mut s = w.data(&k(1));
    sfa::smart_account::transfer::record_spend(&mut s, plan.spend_count).map_err(|e| e.into_failure())?;
    w.set_data(&k(1), s);
    Ok(())
}

/// The SPL token program's `TransferChecked`, enough of it for the smart account's calls.
fn use_token(w: &mut World, ix: &Instruction) -> Result<(), ProgramError> {
    if ix.data.len() != 10 || ix.data[0] != 12 || ix.accounts.len() < 4 {
        return Err(ProgramError::InvalidArgument);
    }
    let amount = rd64(&ix.data, 1);
    let decimals = ix.data[9];
    let (source, mint, destination, owner) = (meta_key(ix, 0), meta_key(ix, 1), meta_key(ix, 2), meta_key(ix, 3));
    if !ix.accounts[3].is_signer {
        return Err(ProgramError::MissingRequiredSignature);
    }
    let mut s = w.data(&source);
    let mut d = w.data(&destination);
    let m = w.data(&mint);
    if s.len() != 165 || d.len() != 165 || m.len() != 82 || w.acc(&source).owner != ix.program_id || w.acc(&destination).owner != ix.program_id {
        return Err(ProgramError::InvalidAccountData);
    }
    if s[0..32] != *mint.as_ref() || d[0..32] != *mint.as_ref() {
        return Err(ProgramError::Custom(3));
    }
    if s[32..64] != *owner.as_ref() {
        return Err(ProgramError::Custom(4));
    }
    if m[44] != decimals {
        return Err(ProgramError::Custom(18));
    }
    if s[108] != 1 || d[108] != 1 {
        return Err(ProgramError::Custom(17));
    }
    let available = rd64(&s, 64);
    if available < amount {
        return Err(ProgramError::Custom(1));
    }
    s[64..72].copy_from_slice(&(available - amount).to_le_bytes());
    let received = rd64(&d, 64) + amount;
    d[64..72].copy_from_slice(&received.to_le_bytes());
    w.set_data(&source, s);
    w.set_data(&destination, d);
    Ok(())
}

use pqcrypto_falcon::falcon512;
use pqcrypto_traits::sign::{DetachedSignature as _, PublicKey as _};
use solana_falcon512::{FALCON_512_PREPARED_PUBKEY_LEN, FALCON_512_PUBKEY_LEN, FALCON_512_SIGNATURE_LEN, Falcon512Pubkey};
use solana_program::hash::hashv;

const TAG_INIT_COUNTER: u8 = 0;
const TAG_INCREMENT_WITH_FALCON: u8 = 1;
const FALCON_KEY_SEED: &[u8] = b"falcon-key";
const COUNTER_SEED: &[u8] = b"counter";
const FALCON_KEY_DISCRIMINATOR: [u8; 8] = *b"FALKYA02";
const FALCON_ACTION_MAGIC: [u8; 16] = *b"SOL_FALCON_ACT1!";
const COUNTER_DISCRIMINATOR: [u8; 8] = *b"EXCNTR01";
const VERSION_OFFSET: usize = 8;
const FALCON_AUTH_BUMP_OFFSET: usize = 9;
const FALCON_AUTH_AUTHORITY_OFFSET: usize = 12;
const FALCON_AUTH_NEXT_NONCE_OFFSET: usize = 44;
const FALCON_AUTH_PREPARED_PUBKEY_OFFSET: usize = 52;
const FALCON_KEY_ACCOUNT_LEN: usize = FALCON_AUTH_PREPARED_PUBKEY_OFFSET + 1024;
const COUNTER_VALUE_OFFSET: usize = 73;
const FALCON_ACTION_PAYLOAD_LEN: usize = 193;

struct Fixture {
    mollusk: Mollusk,
    consumer_program_id: Pubkey,
    falcon_auth_program_id: Pubkey,
    authority: Pubkey,
    falcon_key: Pubkey,
    counter: Pubkey,
    counter_bump: u8,
    falcon_account: Account,
    falcon_auth_program_account: Account,
    secret_key: falcon512::SecretKey,
}

fn make_fixture(next_nonce: u64) -> Fixture {
    let consumer_program_id = Pubkey::new_unique();
    let falcon_auth_program_id = Pubkey::new_unique();
    let mut mollusk = Mollusk::new(&consumer_program_id, "../../target/deploy/example_consumer");
    mollusk.add_program(&falcon_auth_program_id, "../../target/deploy/falcon_auth");

    let authority = Pubkey::new_unique();
    let (falcon_key, bump) = Pubkey::find_program_address(
        &[FALCON_KEY_SEED, authority.as_ref()],
        &falcon_auth_program_id,
    );
    let (counter, counter_bump) = Pubkey::find_program_address(
        &[
            COUNTER_SEED,
            authority.as_ref(),
            falcon_auth_program_id.as_ref(),
        ],
        &consumer_program_id,
    );
    let (prepared_pubkey, secret_key) = falcon_keypair();

    Fixture {
        mollusk,
        consumer_program_id,
        falcon_auth_program_id,
        authority,
        falcon_key,
        counter,
        counter_bump,
        falcon_account: falcon_account(
            falcon_auth_program_id,
            authority,
            bump,
            next_nonce,
            prepared_pubkey,
        ),
        falcon_auth_program_account: executable_program_account(),
        secret_key,
    }
}

fn falcon_keypair() -> ([u8; FALCON_512_PREPARED_PUBKEY_LEN], falcon512::SecretKey) {
    let (public_key, secret_key) = falcon512::keypair();
    let mut pk_bytes = [0u8; FALCON_512_PUBKEY_LEN];
    pk_bytes.copy_from_slice(public_key.as_bytes());
    let pubkey = Falcon512Pubkey::from(pk_bytes);
    (*pubkey.try_prepare_pubkey().unwrap().as_bytes(), secret_key)
}

fn falcon_account(
    program_id: Pubkey,
    authority: Pubkey,
    bump: u8,
    next_nonce: u64,
    prepared_pubkey: [u8; FALCON_512_PREPARED_PUBKEY_LEN],
) -> Account {
    let mut data = vec![0u8; FALCON_KEY_ACCOUNT_LEN];
    data[..8].copy_from_slice(&FALCON_KEY_DISCRIMINATOR);
    data[VERSION_OFFSET] = 2;
    data[FALCON_AUTH_BUMP_OFFSET] = bump;
    data[FALCON_AUTH_AUTHORITY_OFFSET..FALCON_AUTH_NEXT_NONCE_OFFSET]
        .copy_from_slice(authority.as_ref());
    data[FALCON_AUTH_NEXT_NONCE_OFFSET..FALCON_AUTH_PREPARED_PUBKEY_OFFSET]
        .copy_from_slice(&next_nonce.to_le_bytes());
    data[FALCON_AUTH_PREPARED_PUBKEY_OFFSET..].copy_from_slice(&prepared_pubkey);

    Account {
        lamports: 1_000_000_000,
        data,
        owner: program_id,
        executable: false,
        rent_epoch: 0,
    }
}

fn executable_program_account() -> Account {
    Account {
        lamports: 1_000_000_000,
        data: Vec::new(),
        owner: solana_program::bpf_loader::id(),
        executable: true,
        rent_epoch: 0,
    }
}

fn empty_counter_account() -> Account {
    Account::new(0, 0, &solana_system_interface::program::id())
}

fn authority_account() -> Account {
    Account::new(1_000_000_000, 0, &solana_system_interface::program::id())
}

fn init_counter_ix(fixture: &Fixture) -> Instruction {
    Instruction::new_with_bytes(
        fixture.consumer_program_id,
        &[TAG_INIT_COUNTER, fixture.counter_bump],
        vec![
            AccountMeta::new(fixture.authority, true),
            AccountMeta::new(fixture.counter, false),
            AccountMeta::new_readonly(fixture.falcon_auth_program_id, false),
            AccountMeta::new_readonly(solana_system_interface::program::id(), false),
        ],
    )
}

fn consumer_ix(
    fixture: &Fixture,
    amount: u64,
    signed_amount: u64,
    nonce: u64,
    current_counter: u64,
) -> Instruction {
    let expires_slot = 100;
    let action_domain = counter_increment_domain();
    let action_hash = counter_increment_hash(
        &fixture.consumer_program_id,
        &fixture.counter,
        &fixture.authority,
        signed_amount,
        current_counter,
    );
    let payload = build_falcon_payload(
        fixture.falcon_auth_program_id,
        fixture.authority,
        fixture.falcon_key,
        nonce,
        expires_slot,
        &action_domain,
        &action_hash,
    );
    let signature = falcon_signature_bytes(&payload, &fixture.secret_key);

    let mut data = Vec::with_capacity(1 + 1 + 8 + 8 + 8 + FALCON_512_SIGNATURE_LEN);
    data.push(TAG_INCREMENT_WITH_FALCON);
    data.push(0);
    data.extend_from_slice(&nonce.to_le_bytes());
    data.extend_from_slice(&expires_slot.to_le_bytes());
    data.extend_from_slice(&amount.to_le_bytes());
    data.extend_from_slice(&signature);

    Instruction::new_with_bytes(
        fixture.consumer_program_id,
        &data,
        vec![
            AccountMeta::new_readonly(fixture.authority, false),
            AccountMeta::new(fixture.falcon_key, false),
            AccountMeta::new(fixture.counter, false),
            AccountMeta::new_readonly(fixture.falcon_auth_program_id, false),
        ],
    )
}

fn build_falcon_payload(
    falcon_auth_program_id: Pubkey,
    authority: Pubkey,
    falcon_key: Pubkey,
    nonce: u64,
    expires_slot: u64,
    action_domain: &[u8; 32],
    action_hash: &[u8; 32],
) -> [u8; FALCON_ACTION_PAYLOAD_LEN] {
    let mut out = [0u8; FALCON_ACTION_PAYLOAD_LEN];
    out[0..16].copy_from_slice(&FALCON_ACTION_MAGIC);
    out[16] = 0;
    out[17..49].copy_from_slice(falcon_auth_program_id.as_ref());
    out[49..81].copy_from_slice(authority.as_ref());
    out[81..113].copy_from_slice(falcon_key.as_ref());
    out[113..121].copy_from_slice(&nonce.to_le_bytes());
    out[121..129].copy_from_slice(&expires_slot.to_le_bytes());
    out[129..161].copy_from_slice(action_domain);
    out[161..193].copy_from_slice(action_hash);
    out
}

fn falcon_signature_bytes(
    payload: &[u8],
    secret_key: &falcon512::SecretKey,
) -> [u8; FALCON_512_SIGNATURE_LEN] {
    let signature = falcon512::detached_sign(payload, secret_key);
    let mut out = [0u8; FALCON_512_SIGNATURE_LEN];
    out[..signature.as_bytes().len()].copy_from_slice(signature.as_bytes());
    out
}

fn counter_increment_domain() -> [u8; 32] {
    hashv(&[b"example-consumer", b"counter.increment.v1"]).to_bytes()
}

fn counter_increment_hash(
    program_id: &Pubkey,
    counter: &Pubkey,
    authority: &Pubkey,
    amount: u64,
    current_counter: u64,
) -> [u8; 32] {
    let amount_bytes = amount.to_le_bytes();
    let current_counter_bytes = current_counter.to_le_bytes();
    hashv(&[
        b"example-counter-action-v1",
        program_id.as_ref(),
        counter.as_ref(),
        authority.as_ref(),
        &amount_bytes,
        &current_counter_bytes,
    ])
    .to_bytes()
}

fn counter_value(account: &Account) -> u64 {
    u64::from_le_bytes(
        account.data[COUNTER_VALUE_OFFSET..COUNTER_VALUE_OFFSET + 8]
            .try_into()
            .unwrap(),
    )
}

fn falcon_next_nonce(account: &Account) -> u64 {
    u64::from_le_bytes(
        account.data[FALCON_AUTH_NEXT_NONCE_OFFSET..FALCON_AUTH_PREPARED_PUBKEY_OFFSET]
            .try_into()
            .unwrap(),
    )
}

fn result_account(result: &InstructionResult, key: Pubkey) -> Account {
    result
        .resulting_accounts
        .iter()
        .find(|(account_key, _)| *account_key == key)
        .expect("result account exists")
        .1
        .clone()
}

fn init_counter(fixture: &Fixture) -> Account {
    let result = fixture.mollusk.process_instruction(
        &init_counter_ix(fixture),
        &[
            (fixture.authority, authority_account()),
            (fixture.counter, empty_counter_account()),
            (
                fixture.falcon_auth_program_id,
                fixture.falcon_auth_program_account.clone(),
            ),
            keyed_account_for_system_program(),
        ],
    );
    assert!(result.program_result.is_ok(), "{:?}", result.program_result);
    result_account(&result, fixture.counter)
}

fn process_consumer_ix(
    fixture: &Fixture,
    ix: &Instruction,
    counter_account: Account,
) -> InstructionResult {
    fixture.mollusk.process_instruction(
        ix,
        &[
            (fixture.authority, Account::default()),
            (fixture.falcon_key, fixture.falcon_account.clone()),
            (fixture.counter, counter_account),
            (
                fixture.falcon_auth_program_id,
                fixture.falcon_auth_program_account.clone(),
            ),
        ],
    )
}

#[test]
fn consumer_init_counter_creates_program_owned_state() {
    let fixture = make_fixture(0);
    let result = fixture.mollusk.process_instruction(
        &init_counter_ix(&fixture),
        &[
            (fixture.authority, authority_account()),
            (fixture.counter, empty_counter_account()),
            (
                fixture.falcon_auth_program_id,
                fixture.falcon_auth_program_account.clone(),
            ),
            keyed_account_for_system_program(),
        ],
    );

    assert!(result.program_result.is_ok(), "{:?}", result.program_result);
    let counter = result_account(&result, fixture.counter);
    assert_eq!(counter.owner, fixture.consumer_program_id);
    assert_eq!(&counter.data[..8], &COUNTER_DISCRIMINATOR);
    assert_eq!(counter_value(&counter), 0);
}

#[test]
fn consumer_cpi_increments_counter_after_falcon_auth() {
    let fixture = make_fixture(0);
    let counter_account = init_counter(&fixture);
    let ix = consumer_ix(&fixture, 7, 7, 0, 0);

    let result = process_consumer_ix(&fixture, &ix, counter_account);

    assert!(result.program_result.is_ok(), "{:?}", result.program_result);
    let counter = result_account(&result, fixture.counter);
    let falcon_key = result_account(&result, fixture.falcon_key);
    assert_eq!(counter_value(&counter), 7);
    assert_eq!(falcon_next_nonce(&falcon_key), 1);
}

#[test]
fn consumer_cpi_rejects_tampered_action_amount() {
    let fixture = make_fixture(0);
    let counter_account = init_counter(&fixture);
    let ix = consumer_ix(&fixture, 8, 7, 0, 0);

    let result = process_consumer_ix(&fixture, &ix, counter_account);

    assert_eq!(
        result.program_result,
        SvmResult::Failure(ProgramError::Custom(8))
    );
    let counter = result_account(&result, fixture.counter);
    let falcon_key = result_account(&result, fixture.falcon_key);
    assert_eq!(counter_value(&counter), 0);
    assert_eq!(falcon_next_nonce(&falcon_key), 0);
}

#[test]
fn consumer_cpi_rejects_replayed_falcon_signature() {
    let fixture = make_fixture(0);
    let counter_account = init_counter(&fixture);
    let ix = consumer_ix(&fixture, 7, 7, 0, 0);
    let first = process_consumer_ix(&fixture, &ix, counter_account);
    assert!(first.program_result.is_ok(), "{:?}", first.program_result);

    let replay = fixture.mollusk.process_instruction(
        &ix,
        &[
            (fixture.authority, Account::default()),
            (
                fixture.falcon_key,
                result_account(&first, fixture.falcon_key),
            ),
            (fixture.counter, result_account(&first, fixture.counter)),
            (
                fixture.falcon_auth_program_id,
                fixture.falcon_auth_program_account.clone(),
            ),
        ],
    );

    assert_eq!(
        replay.program_result,
        SvmResult::Failure(ProgramError::Custom(9))
    );
    let counter = result_account(&replay, fixture.counter);
    let falcon_key = result_account(&replay, fixture.falcon_key);
    assert_eq!(counter_value(&counter), 7);
    assert_eq!(falcon_next_nonce(&falcon_key), 1);
}

#[test]
fn consumer_cpi_rejects_wrong_falcon_auth_program() {
    let fixture = make_fixture(0);
    let counter_account = init_counter(&fixture);
    let mut ix = consumer_ix(&fixture, 7, 7, 0, 0);
    let wrong_program = Pubkey::new_unique();
    ix.accounts[3].pubkey = wrong_program;

    let result = fixture.mollusk.process_instruction(
        &ix,
        &[
            (fixture.authority, Account::default()),
            (fixture.falcon_key, fixture.falcon_account.clone()),
            (fixture.counter, counter_account),
            (wrong_program, executable_program_account()),
        ],
    );

    assert_eq!(
        result.program_result,
        SvmResult::Failure(ProgramError::Custom(4))
    );
    let counter = result_account(&result, fixture.counter);
    let falcon_key = result_account(&result, fixture.falcon_key);
    assert_eq!(counter_value(&counter), 0);
    assert_eq!(falcon_next_nonce(&falcon_key), 0);
}

#[test]
fn consumer_cpi_rejects_wrong_counter_pda() {
    let fixture = make_fixture(0);
    let counter_account = init_counter(&fixture);
    let wrong_counter = Pubkey::new_unique();
    let mut ix = consumer_ix(&fixture, 7, 7, 0, 0);
    ix.accounts[2].pubkey = wrong_counter;

    let result = fixture.mollusk.process_instruction(
        &ix,
        &[
            (fixture.authority, Account::default()),
            (fixture.falcon_key, fixture.falcon_account.clone()),
            (wrong_counter, counter_account),
            (
                fixture.falcon_auth_program_id,
                fixture.falcon_auth_program_account.clone(),
            ),
        ],
    );

    assert_eq!(
        result.program_result,
        SvmResult::Failure(ProgramError::Custom(3))
    );
    let falcon_key = result_account(&result, fixture.falcon_key);
    assert_eq!(falcon_next_nonce(&falcon_key), 0);
}
