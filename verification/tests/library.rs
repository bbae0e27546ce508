use solana_falcon_auth::dispatch::{
    decode_falcon_auth_instruction, decode_quorum_instruction, decode_smart_account_instruction, decode_vault_instruction, FalconAuthInstruction,
    QuorumInstruction, SmartAccountInstruction, VaultInstruction,
};
use solana_falcon_auth::falcon_auth::{build_action_payload, derive_key_pda, is_valid_prepared_pubkey};
use solana_falcon_auth::mldsa44::protocol::{prepare_mldsa44_public_key, MLDSA44_PREPARED_PUBLIC_KEY_LEN};
use solana_falcon_auth::quorum::approve::close_program_account_to_authority;
use solana_falcon_auth::quorum::mldsa_proof::{key_buffer_in_range, proof_in_range, MLDSA_PROOF_ACCOUNT_LEN, MLDSA_PUBLIC_KEY_BUFFER_LEN};
use solana_falcon_auth::quorum::state::PqQuorumAuthError;
use solana_falcon_auth::quorum::wots::{wots16_chain, wots16_digits, wots16_root_step};
use solana_falcon_auth::registry::validate_registry_pda;
use solana_falcon_auth::runtime::{AccountHeader, ProgramFailure};
use solana_falcon_auth::smart_account::setup::process_write_falcon_signature_chunk;
use solana_falcon_auth::smart_account::state::{
    close_falcon_signature_buffer, prepare_transfer, smart_transfer_hash, write_falcon_signature_buffer_header, write_smart_account_state,
    PqSmartAccountError, FALCON_SIGNATURE_BUFFER_LEN, SMART_ACCOUNT_LEN,
};
use solana_falcon_auth::smart_account::transfer::{
    build_quorum_falcon_mldsa_ix, build_quorum_falcon_winternitz_ix, build_quorum_winternitz_mldsa_ix, record_spend,
};
use solana_program::pubkey::Pubkey;
use sha3::digest::{ExtendableOutput, Update, XofReader};

fn header(key: Pubkey, owner: Pubkey, signer: bool, writable: bool) -> AccountHeader {
    AccountHeader { key: key.to_bytes(), owner: owner.to_bytes(), lamports: 1_000_000, is_signer: signer, is_writable: writable, executable: false }
}

#[test]
fn instructions_are_named_by_their_tag() {
    assert_eq!(decode_falcon_auth_instruction(&[1, 9, 9]), Ok(FalconAuthInstruction::VerifyAction));
    assert_eq!(decode_falcon_auth_instruction(&[]), Err(ProgramFailure::Custom(1)));
    assert_eq!(decode_falcon_auth_instruction(&[6]), Err(ProgramFailure::Custom(1)));
    assert_eq!(decode_vault_instruction(&[2]), Ok(VaultInstruction::WithdrawWithFalcon));
    assert_eq!(decode_quorum_instruction(&[18]), Ok(QuorumInstruction::PrepareMldsaZColumn));
    assert_eq!(decode_quorum_instruction(&[2]), Err(ProgramFailure::Custom(10)));
    assert_eq!(decode_quorum_instruction(&[9]), Err(ProgramFailure::Custom(1)));
    assert_eq!(decode_smart_account_instruction(&[11]), Ok(SmartAccountInstruction::TransferSplTokenWinternitzMldsaProof));
    assert_eq!(decode_smart_account_instruction(&[12]), Err(ProgramFailure::Custom(1)));
}

#[test]
fn action_payload_has_the_documented_layout() {
    let program = [1u8; 32];
    let authority = [2u8; 32];
    let key = [3u8; 32];
    let payload = build_action_payload(7, &program, &authority, &key, 5, 9, &[4u8; 32], &[6u8; 32]);
    assert_eq!(payload.len(), 193);
    assert_eq!(&payload[0..16], b"SOL_FALCON_ACT1!");
    assert_eq!(payload[16], 7);
    assert_eq!(&payload[17..49], &program);
    assert_eq!(&payload[49..81], &authority);
    assert_eq!(&payload[81..113], &key);
    assert_eq!(&payload[113..121], &5u64.to_le_bytes());
    assert_eq!(&payload[121..129], &9u64.to_le_bytes());
    assert_eq!(&payload[129..161], &[4u8; 32]);
    assert_eq!(&payload[161..193], &[6u8; 32]);
}

#[test]
fn key_pda_is_the_runtime_address() {
    let program = Pubkey::new_unique();
    let authority = Pubkey::new_unique();
    let (expected, bump) = Pubkey::find_program_address(&[b"falcon-key", authority.as_ref()], &program);
    assert_eq!(derive_key_pda(&authority.to_bytes(), &program.to_bytes()), Some((expected.to_bytes(), bump)));
}

#[test]
fn registry_pda_uses_the_given_bump() {
    let program = Pubkey::new_unique();
    let wallet = Pubkey::new_unique();
    let (registry, bump) = Pubkey::find_program_address(&[b"pq-migrate", wallet.as_ref()], &program);
    assert!(validate_registry_pda(&program.to_bytes(), &wallet.to_bytes(), &registry.to_bytes(), bump).is_ok());
    assert!(validate_registry_pda(&program.to_bytes(), &wallet.to_bytes(), &Pubkey::new_unique().to_bytes(), bump).is_err());
}

#[test]
fn prepared_pubkey_coefficients_must_be_below_q() {
    let mut bytes = [0u8; 1024];
    assert!(is_valid_prepared_pubkey(&bytes));
    bytes[0] = 0x01;
    bytes[1] = 0x30;
    assert!(!is_valid_prepared_pubkey(&bytes));
    assert!(!is_valid_prepared_pubkey(&bytes[..1000]));
}

#[test]
fn prepared_mldsa_key_carries_shake256_of_the_key() {
    let pk: Vec<u8> = (0..1312u32).map(|i| (i * 7 + 3) as u8).collect();
    let mut prepared = vec![0u8; MLDSA44_PREPARED_PUBLIC_KEY_LEN];
    assert!(prepare_mldsa44_public_key(&pk, &mut prepared));
    let mut hasher = sha3::Shake256::default();
    hasher.update(&pk);
    let mut tr = [0u8; 64];
    hasher.finalize_xof().read(&mut tr);
    assert_eq!(&prepared[1312..1376], &tr[..]);
}

#[test]
fn winternitz_digits_end_with_the_checksum() {
    let digits = wots16_digits(b"message");
    let digest = solana_nostd_keccak::hash(b"message");
    assert_eq!(digits.len(), 67);
    let mut sum = 0u16;
    for (i, byte) in digest.iter().enumerate() {
        assert_eq!(digits[2 * i], byte >> 4);
        assert_eq!(digits[2 * i + 1], byte & 15);
        sum += u16::from(15 - (byte >> 4)) + u16::from(15 - (byte & 15));
    }
    assert_eq!(digits[64], ((sum >> 8) & 15) as u8);
    assert_eq!(digits[65], ((sum >> 4) & 15) as u8);
    assert_eq!(digits[66], (sum & 15) as u8);
}

#[test]
fn winternitz_chain_hashes_each_step() {
    let start = [5u8; 32];
    assert_eq!(wots16_chain(&start, 3, 0, 0), start);
    let one = solana_nostd_keccak::hashv(&[b"pq-wots16-chain-v1", &[3], &[0], &start]);
    assert_eq!(wots16_chain(&start, 3, 0, 1), one);
    let two = solana_nostd_keccak::hashv(&[b"pq-wots16-chain-v1", &[3], &[1], &one]);
    assert_eq!(wots16_chain(&start, 3, 0, 2), two);
    assert_eq!(wots16_chain(&one, 3, 1, 1), two);
    let root = wots16_root_step(&[1u8; 32], 4, &two);
    assert_eq!(root, solana_nostd_keccak::hashv(&[b"pq-wots16-root-v1", &[4], &[1u8; 32], &two]));
}

#[test]
fn sol_transfer_hash_is_sha256_of_its_preimage() {
    let (p, s, a, d) = ([1u8; 32], [2u8; 32], [3u8; 32], [4u8; 32]);
    let hash = smart_transfer_hash(&p, &s, &a, &d, 500, 7);
    let expected = solana_program::hash::hashv(&[b"pq-smart-account-transfer-sol-v1", &p, &s, &a, &d, &500u64.to_le_bytes(), &7u64.to_le_bytes()]);
    assert_eq!(hash, expected.to_bytes());
    assert_ne!(hash, smart_transfer_hash(&p, &s, &a, &d, 500, 8));
}

#[test]
fn quorum_calls_carry_the_fields_where_the_quorum_reads_them() {
    let ix = build_quorum_falcon_winternitz_ix(3, 10, 11, 12, &[1u8; 32], &[2u8; 32], &[4u8; 32], &[5u8; 666]);
    assert_eq!(ix.len(), 788);
    assert_eq!(ix[0], 1);
    let d = &ix[1..];
    assert_eq!(d[0], 3);
    assert_eq!(&d[1..9], &10u64.to_le_bytes());
    assert_eq!(&d[9..17], &11u64.to_le_bytes());
    assert_eq!(&d[17..25], &12u64.to_le_bytes());
    assert_eq!(&d[25..57], &[1u8; 32]);
    assert_eq!(&d[57..89], &[2u8; 32]);
    assert_eq!(&d[89..121], &[4u8; 32]);
    assert_eq!(&d[121..787], &[5u8; 666][..]);
    let ix = build_quorum_falcon_mldsa_ix(3, 10, 11, 12, &[1u8; 32], &[2u8; 32], &[5u8; 666]);
    assert_eq!((ix.len(), ix[0]), (756, 14));
    assert_eq!(&ix[90..756], &[5u8; 666][..]);
    let ix = build_quorum_winternitz_mldsa_ix(3, 10, 12, &[1u8; 32], &[2u8; 32], &[4u8; 32]);
    assert_eq!((ix.len(), ix[0]), (114, 15));
    assert_eq!(&ix[10..18], &12u64.to_le_bytes());
    assert_eq!(&ix[82..114], &[4u8; 32]);
}

fn smart_data(spend_count: u64) -> Vec<u8> {
    let mut data = vec![0u8; SMART_ACCOUNT_LEN];
    write_smart_account_state(&mut data, 255, &[1u8; 32], &[2u8; 32], &[3u8; 32], spend_count).unwrap();
    data
}

#[test]
fn sol_transfer_moves_lamports_and_keeps_rent() {
    let data = smart_data(4);
    let t = prepare_transfer(&[0u8; 32], &[1u8; 32], &[9u8; 32], &[8u8; 32], &data, 300, 1_000, 50, 600).unwrap();
    assert_eq!(t.remaining_lamports, 700);
    assert_eq!(t.next_destination_lamports, 350);
    assert_eq!(t.next_spend_count, 5);
    assert_eq!(t.remaining_lamports + t.next_destination_lamports, 1_050);
    assert_eq!(&t.action_domain, b"PQ_SMART_TRANSFER_SOL_V1________");
}

#[test]
fn sol_transfer_errors() {
    let data = smart_data(4);
    assert_eq!(prepare_transfer(&[0u8; 32], &[1u8; 32], &[9u8; 32], &[8u8; 32], &data, 0, 1_000, 50, 600).err(),
        Some(PqSmartAccountError::InvalidInstructionData));
    assert_eq!(prepare_transfer(&[0u8; 32], &[1u8; 32], &[9u8; 32], &[8u8; 32], &data, 401, 1_000, 50, 600).err(),
        Some(PqSmartAccountError::InsufficientSmartAccountFunds));
    assert_eq!(prepare_transfer(&[0u8; 32], &[1u8; 32], &[9u8; 32], &[8u8; 32], &data, 2_000, 1_000, 50, 0).err(),
        Some(PqSmartAccountError::InsufficientSmartAccountFunds));
    assert_eq!(prepare_transfer(&[0u8; 32], &[1u8; 32], &[9u8; 32], &[8u8; 32], &data, 10, 1_000, u64::MAX, 0).err(),
        Some(PqSmartAccountError::ArithmeticOverflow));
    let full = smart_data(u64::MAX);
    assert_eq!(prepare_transfer(&[0u8; 32], &[1u8; 32], &[9u8; 32], &[8u8; 32], &full, 10, 1_000, 0, 0).err(),
        Some(PqSmartAccountError::ArithmeticOverflow));
}

#[test]
fn recording_a_spend_advances_only_the_count() {
    let mut data = smart_data(41);
    let before = data.clone();
    record_spend(&mut data, 41).unwrap();
    assert_eq!(&data[..108], &before[..108]);
    assert_eq!(u64::from_le_bytes(data[108..116].try_into().unwrap()), 42);
    let mut last = smart_data(u64::MAX);
    let unchanged = last.clone();
    assert_eq!(record_spend(&mut last, u64::MAX), Err(PqSmartAccountError::ArithmeticOverflow));
    assert_eq!(last, unchanged);
}

#[test]
fn closing_a_signature_buffer_moves_its_lamports() {
    let mut buffer = vec![7u8; FALCON_SIGNATURE_BUFFER_LEN];
    assert_eq!(close_falcon_signature_buffer(&mut buffer, 30, 70), Ok(100));
    assert!(buffer.iter().all(|b| *b == 0));
    let mut other = vec![7u8; 10];
    assert_eq!(close_falcon_signature_buffer(&mut other, 1, u64::MAX), Err(PqSmartAccountError::ArithmeticOverflow));
    assert_eq!(other, vec![7u8; 10]);
    let mut account = vec![9u8; 12];
    assert_eq!(close_program_account_to_authority(&mut account, 5, 6), Ok(11));
    assert_eq!(account, [0, 0, 0, 0, 0, 0, 0, 0, 9, 9, 9, 9]);
    assert_eq!(close_program_account_to_authority(&mut account, 5, u64::MAX), Err(PqQuorumAuthError::ArithmeticOverflow));
}

#[test]
fn signature_chunks_are_appended_in_order() {
    let program = Pubkey::new_unique();
    let authority = Pubkey::new_unique();
    let smart = Pubkey::new_unique();
    let quorum = Pubkey::new_unique();
    let (buffer, bump) = Pubkey::find_program_address(
        &[b"falcon-sig", authority.as_ref(), smart.as_ref(), quorum.as_ref(), &3u64.to_le_bytes()], &program);
    let mut data = vec![0u8; FALCON_SIGNATURE_BUFFER_LEN];
    write_falcon_signature_buffer_header(&mut data, bump, authority.as_ref(), smart.as_ref(), quorum.as_ref(), 3).unwrap();
    let accounts = [header(authority, Pubkey::default(), true, false), header(smart, program, false, false),
        header(quorum, Pubkey::default(), false, false), header(buffer, program, false, true)];
    let chunk = |offset: u16, bytes: &[u8]| {
        let mut d = 3u64.to_le_bytes().to_vec();
        d.extend_from_slice(&offset.to_le_bytes());
        d.extend_from_slice(bytes);
        d
    };
    process_write_falcon_signature_chunk(&program.to_bytes(), &accounts, &mut data, &chunk(0, &[1u8; 400])).unwrap();
    assert_eq!(process_write_falcon_signature_chunk(&program.to_bytes(), &accounts, &mut data, &chunk(0, &[2u8; 10])),
        Err(ProgramFailure::Custom(8)));
    assert_eq!(process_write_falcon_signature_chunk(&program.to_bytes(), &accounts, &mut data, &chunk(400, &[2u8; 267])),
        Err(ProgramFailure::Custom(1)));
    process_write_falcon_signature_chunk(&program.to_bytes(), &accounts, &mut data, &chunk(400, &[2u8; 266])).unwrap();
    assert_eq!(u16::from_le_bytes([data[116], data[117]]), 666);
    assert_eq!(&data[118..518], &[1u8; 400][..]);
    assert_eq!(&data[518..784], &[2u8; 266][..]);
}

#[test]
fn range_checks_find_an_out_of_range_coefficient() {
    let mut proof = vec![0u8; MLDSA_PROOF_ACCOUNT_LEN];
    assert!(proof_in_range(&proof));
    // Row 0 has absorbed no column, so its accumulator must be zero.
    proof[6074..6078].copy_from_slice(&1i32.to_le_bytes());
    assert!(!proof_in_range(&proof));
    // Once one column is absorbed, values up to Q in magnitude are allowed.
    proof[950] = 1;
    assert!(proof_in_range(&proof));
    proof[6074..6078].copy_from_slice(&(-8_380_418i32).to_le_bytes());
    assert!(!proof_in_range(&proof));
    let mut key = vec![0u8; MLDSA_PUBLIC_KEY_BUFFER_LEN];
    key[84..86].copy_from_slice(&5472u16.to_le_bytes());
    assert!(key_buffer_in_range(&key));
    key[86 + 1376..86 + 1380].copy_from_slice(&(2 * 8_380_417i32).to_le_bytes());
    assert!(!key_buffer_in_range(&key));
}
