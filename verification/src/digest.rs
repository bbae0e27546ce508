//! Calls into the hash, signature and address-derivation crates, with the contracts the
//! rest of the library relies on.
use vstd::prelude::*;
use sha3::digest::{ExtendableOutput, Update, XofReader};
use solana_falcon512::{Falcon512PreparedPubkey, Falcon512Signature};
use solana_program::pubkey::Pubkey;

verus! {

/// The first `len` bytes of the SHAKE256 output stream of `input`.
pub uninterp spec fn spec_shake256(input: Seq<u8>, len: nat) -> Seq<u8>;

/// The first `len` bytes of the SHAKE128 output stream of `input`.
pub uninterp spec fn spec_shake128(input: Seq<u8>, len: nat) -> Seq<u8>;

/// SHA-256 digest of `input`.
pub uninterp spec fn spec_sha256(input: Seq<u8>) -> Seq<u8>;

/// Keccak-256 digest of `input`.
pub uninterp spec fn spec_keccak256(input: Seq<u8>) -> Seq<u8>;

/// Falcon-512 verdict for a 666-byte signature over `message` against a 1024-byte prepared key.
pub uninterp spec fn spec_falcon512_verify(signature: Seq<u8>, message: Seq<u8>, prepared: Seq<u8>) -> bool;

/// Canonical program-derived address and bump for `seeds` under `program_id`.
pub uninterp spec fn spec_find_program_address(seeds: Seq<Seq<u8>>, program_id: Seq<u8>) -> Option<(Seq<u8>, u8)>;

/// Program-derived address for `seeds` (bump included) under `program_id`, if off-curve.
pub uninterp spec fn spec_create_program_address(seeds: Seq<Seq<u8>>, program_id: Seq<u8>) -> Option<Seq<u8>>;

/// The byte strings behind a list of seed slices.
pub open spec fn seeds_view(seeds: Seq<&[u8]>) -> Seq<Seq<u8>> {
    seeds.map_values(|s: &[u8]| s@)
}

/// `sha3::Shake256`: absorbs `input`, squeezes `len` bytes. The output is a prefix of one
/// stream: every shorter squeeze of the same input is a prefix of this one.
#[verifier::external_body]
pub(crate) fn shake256(input: &[u8], len: usize) -> (out: Vec<u8>)
    ensures
        out@ == spec_shake256(input@, len as nat),
        out@.len() == len,
        forall|n: nat| n <= len ==> #[trigger] spec_shake256(input@, n) == out@.take(n as int),
{
    let mut hasher = sha3::Shake256::default();
    hasher.update(input);
    let mut out = vec![0u8; len];
    hasher.finalize_xof().read(&mut out);
    out
}

/// `sha3::Shake128`: absorbs `input`, squeezes `len` bytes. The output is a prefix of one
/// stream: every shorter squeeze of the same input is a prefix of this one.
#[verifier::external_body]
pub(crate) fn shake128(input: &[u8], len: usize) -> (out: Vec<u8>)
    ensures
        out@ == spec_shake128(input@, len as nat),
        out@.len() == len,
        forall|n: nat| n <= len ==> #[trigger] spec_shake128(input@, n) == out@.take(n as int),
{
    let mut hasher = sha3::Shake128::default();
    hasher.update(input);
    let mut out = vec![0u8; len];
    hasher.finalize_xof().read(&mut out);
    out
}

/// `solana_program::hash::hashv` over a single slice: the 32-byte SHA-256 digest.
#[verifier::external_body]
pub(crate) fn sha256(input: &[u8]) -> (out: [u8; 32])
    ensures
        out@ == spec_sha256(input@),
{
    solana_program::hash::hashv(&[input]).to_bytes()
}

/// `solana_nostd_keccak::hash`: the 32-byte Keccak-256 digest.
#[verifier::external_body]
pub(crate) fn keccak256(input: &[u8]) -> (out: [u8; 32])
    ensures
        out@ == spec_keccak256(input@),
{
    solana_nostd_keccak::hash(input)
}

/// `Falcon512Signature::verify_with_prepared` on the prepared key rebuilt by
/// `Falcon512PreparedPubkey::try_from` (which only checks the 1024-byte length). The verdict
/// is named: it depends on the three byte strings alone.
#[verifier::external_body]
pub(crate) fn falcon512_verify(signature: &[u8], message: &[u8], prepared: &[u8]) -> (ok: bool)
    requires
        signature@.len() == 666,
        prepared@.len() == 1024,
    ensures
        ok == spec_falcon512_verify(signature@, message@, prepared@),
{
    let signature: &[u8; 666] = signature.try_into().unwrap();
    match Falcon512PreparedPubkey::try_from(prepared) {
        Ok(key) => Falcon512Signature::from_ref(signature).verify_with_prepared(message, &key),
        Err(_) => false,
    }
}

/// `Pubkey::derive_program_address`: the first off-curve address (bump 255 downward).
#[verifier::external_body]
pub(crate) fn find_program_address<const N: usize>(seeds: &[&[u8]; N], program_id: &[u8; 32]) -> (res: Option<([u8; 32], u8)>)
    ensures
        match res {
            Some((key, bump)) => spec_find_program_address(seeds_view(seeds@), program_id@) == Some((key@, bump)),
            None => spec_find_program_address(seeds_view(seeds@), program_id@) is None,
        },
{
    match Pubkey::derive_program_address(seeds, &Pubkey::new_from_array(*program_id)) {
        Some((key, bump)) => Some((key.to_bytes(), bump)),
        None => None,
    }
}

/// `Pubkey::create_program_address`: the address for exactly these seeds, if off-curve.
#[verifier::external_body]
pub(crate) fn create_program_address(seeds: &[&[u8]], program_id: &[u8; 32]) -> (res: Option<[u8; 32]>)
    ensures
        match res {
            Some(key) => spec_create_program_address(seeds_view(seeds@), program_id@) == Some(key@),
            None => spec_create_program_address(seeds_view(seeds@), program_id@) is None,
        },
{
    match Pubkey::create_program_address(seeds, &Pubkey::new_from_array(*program_id)) {
        Ok(key) => Some(key.to_bytes()),
        Err(_) => None,
    }
}

} // verus!
