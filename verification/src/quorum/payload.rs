//! The payloads a quorum approval signs, the hashes derived from them, and the
//! `verify_action` instruction sent to the Falcon program.
use vstd::prelude::*;
use vstd::bytes::{spec_u64_to_le_bytes, u64_to_le_bytes, lemma_auto_spec_u64_to_from_le_bytes};
use crate::digest::{sha256, spec_sha256};
use crate::mldsa44::protocol::append_bytes;
use crate::falcon_auth::{TAG_VERIFY_ACTION, ix_cluster, ix_nonce, ix_expires, ix_domain, ix_hash, ix_signature, VERIFY_ACTION_DATA_LEN};

verus! {

/// `b"PQ_QUORUM_ACT1!!"`
pub const QUORUM_ACTION_MAGIC: [u8; 16] = [80, 81, 95, 81, 85, 79, 82, 85, 77, 95, 65, 67, 84, 49, 33, 33];
/// `b"PQ_QUORUM_ACT2!!"`
pub const QUORUM_ACTION_V2_MAGIC: [u8; 16] = [80, 81, 95, 81, 85, 79, 82, 85, 77, 95, 65, 67, 84, 50, 33, 33];
/// `b"pq-quorum"`
pub const DOMAIN_PREFIX: [u8; 9] = [112, 113, 45, 113, 117, 111, 114, 117, 109];
/// `b"falcon-approval.v1"`
pub const FALCON_APPROVAL_V1: [u8; 18] = [102, 97, 108, 99, 111, 110, 45, 97, 112, 112, 114, 111, 118, 97, 108, 46, 118, 49];
/// `b"falcon-approval.v2"`
pub const FALCON_APPROVAL_V2: [u8; 18] = [102, 97, 108, 99, 111, 110, 45, 97, 112, 112, 114, 111, 118, 97, 108, 46, 118, 50];
/// `b"pq-quorum-falcon-action-v1"`
pub const FALCON_ACTION_TAG_V1: [u8; 26] = [112, 113, 45, 113, 117, 111, 114, 117, 109, 45, 102, 97, 108, 99, 111, 110, 45, 97, 99, 116, 105, 111, 110, 45, 118, 49];
/// `b"pq-quorum-falcon-action-v2"`
pub const FALCON_ACTION_TAG_V2: [u8; 26] = [112, 113, 45, 113, 117, 111, 114, 117, 109, 45, 102, 97, 108, 99, 111, 110, 45, 97, 99, 116, 105, 111, 110, 45, 118, 50];
/// `b"pq-quorum-mldsa-proof-payload-v1"`
pub const MLDSA_PROOF_PAYLOAD_TAG: [u8; 32] = [112, 113, 45, 113, 117, 111, 114, 117, 109, 45, 109, 108, 100, 115, 97, 45, 112, 114, 111, 111, 102, 45, 112, 97, 121, 108, 111, 97, 100, 45, 118, 49];

pub const QUORUM_ACTION_PAYLOAD_LEN: usize = 225;
pub const QUORUM_ACTION_V2_PAYLOAD_LEN: usize = 290;

/// `PQ_QUORUM_ACT1`: magic, cluster, program, authority, quorum, nonce, expiry slot, action
/// domain, action hash, next Winternitz root.
pub open spec fn quorum_payload(cluster: u8, program_id: Seq<u8>, authority: Seq<u8>, quorum: Seq<u8>, nonce: u64, expires_slot: u64,
    action_domain: Seq<u8>, action_hash: Seq<u8>, next_root: Seq<u8>) -> Seq<u8> {
    QUORUM_ACTION_MAGIC@ + seq![cluster] + program_id + authority + quorum + spec_u64_to_le_bytes(nonce)
        + spec_u64_to_le_bytes(expires_slot) + action_domain + action_hash + next_root
}

/// Builds the Falcon + Winternitz approval payload.
pub fn build_quorum_action_payload(cluster: u8, program_id: &[u8], authority: &[u8], quorum: &[u8], nonce: u64, expires_slot: u64,
    action_domain: &[u8], action_hash: &[u8], next_root: &[u8]) -> (out: Vec<u8>)
    ensures
        out@ == quorum_payload(cluster, program_id@, authority@, quorum@, nonce, expires_slot, action_domain@, action_hash@, next_root@),
{
    let mut out: Vec<u8> = Vec::new();
    append_bytes(&mut out, QUORUM_ACTION_MAGIC.as_slice());
    out.push(cluster);
    append_bytes(&mut out, program_id);
    append_bytes(&mut out, authority);
    append_bytes(&mut out, quorum);
    let n = u64_to_le_bytes(nonce);
    append_bytes(&mut out, n.as_slice());
    let e = u64_to_le_bytes(expires_slot);
    append_bytes(&mut out, e.as_slice());
    append_bytes(&mut out, action_domain);
    append_bytes(&mut out, action_hash);
    append_bytes(&mut out, next_root);
    proof {
        assert(out@ =~= quorum_payload(cluster, program_id@, authority@, quorum@, nonce, expires_slot, action_domain@, action_hash@, next_root@));
    }
    out
}

/// `PQ_QUORUM_ACT2`: magic, mode, cluster, program, authority, quorum, ML-DSA key account,
/// nonce, expiry slot, action domain, action hash, current and next Winternitz roots.
pub open spec fn quorum_payload_v2(mode: u8, cluster: u8, program_id: Seq<u8>, authority: Seq<u8>, quorum: Seq<u8>, mldsa_public_key: Seq<u8>,
    nonce: u64, expires_slot: u64, action_domain: Seq<u8>, action_hash: Seq<u8>, current_root: Seq<u8>, next_root: Seq<u8>) -> Seq<u8> {
    QUORUM_ACTION_V2_MAGIC@ + seq![mode, cluster] + program_id + authority + quorum + mldsa_public_key + spec_u64_to_le_bytes(nonce)
        + spec_u64_to_le_bytes(expires_slot) + action_domain + action_hash + current_root + next_root
}

/// Builds the payload of the ML-DSA quorums.
pub fn build_quorum_action_v2_payload(mode: u8, cluster: u8, program_id: &[u8], authority: &[u8], quorum: &[u8], mldsa_public_key: &[u8],
    nonce: u64, expires_slot: u64, action_domain: &[u8], action_hash: &[u8], current_root: &[u8], next_root: &[u8]) -> (out: Vec<u8>)
    ensures
        out@ == quorum_payload_v2(mode, cluster, program_id@, authority@, quorum@, mldsa_public_key@, nonce, expires_slot, action_domain@,
            action_hash@, current_root@, next_root@),
{
    let mut out: Vec<u8> = Vec::new();
    append_bytes(&mut out, QUORUM_ACTION_V2_MAGIC.as_slice());
    out.push(mode);
    out.push(cluster);
    append_bytes(&mut out, program_id);
    append_bytes(&mut out, authority);
    append_bytes(&mut out, quorum);
    append_bytes(&mut out, mldsa_public_key);
    let n = u64_to_le_bytes(nonce);
    append_bytes(&mut out, n.as_slice());
    let e = u64_to_le_bytes(expires_slot);
    append_bytes(&mut out, e.as_slice());
    append_bytes(&mut out, action_domain);
    append_bytes(&mut out, action_hash);
    append_bytes(&mut out, current_root);
    append_bytes(&mut out, next_root);
    proof {
        assert(out@ =~= quorum_payload_v2(mode, cluster, program_id@, authority@, quorum@, mldsa_public_key@, nonce, expires_slot, action_domain@,
            action_hash@, current_root@, next_root@));
    }
    out
}

/// SHA-256 of the concatenation `a || b`.
fn sha256_concat(a: &[u8], b: &[u8]) -> (out: [u8; 32])
    ensures
        out@ == spec_sha256(a@ + b@),
{
    let mut input: Vec<u8> = Vec::new();
    append_bytes(&mut input, a);
    append_bytes(&mut input, b);
    sha256(input.as_slice())
}

/// The action domain under which the quorum asks the Falcon program for approval (v1).
pub fn pq_quorum_falcon_domain() -> (out: [u8; 32])
    ensures
        out@ == spec_sha256(DOMAIN_PREFIX@ + FALCON_APPROVAL_V1@),
{
    sha256_concat(DOMAIN_PREFIX.as_slice(), FALCON_APPROVAL_V1.as_slice())
}

/// The action hash the Falcon key signs for a v1 quorum payload.
pub fn pq_quorum_falcon_action_hash(payload: &[u8]) -> (out: [u8; 32])
    requires
        payload@.len() == QUORUM_ACTION_PAYLOAD_LEN,
    ensures
        out@ == spec_sha256(FALCON_ACTION_TAG_V1@ + payload@),
{
    sha256_concat(FALCON_ACTION_TAG_V1.as_slice(), payload)
}

/// The action domain under which the quorum asks the Falcon program for approval (v2).
pub fn pq_quorum_falcon_domain_v2() -> (out: [u8; 32])
    ensures
        out@ == spec_sha256(DOMAIN_PREFIX@ + FALCON_APPROVAL_V2@),
{
    sha256_concat(DOMAIN_PREFIX.as_slice(), FALCON_APPROVAL_V2.as_slice())
}

/// The action hash the Falcon key signs for a v2 quorum payload.
pub fn pq_quorum_falcon_action_hash_v2(payload: &[u8]) -> (out: [u8; 32])
    requires
        payload@.len() == QUORUM_ACTION_V2_PAYLOAD_LEN,
    ensures
        out@ == spec_sha256(FALCON_ACTION_TAG_V2@ + payload@),
{
    sha256_concat(FALCON_ACTION_TAG_V2.as_slice(), payload)
}

/// The payload hash an ML-DSA proof account is bound to.
pub fn mldsa_proof_payload_hash(payload: &[u8]) -> (out: [u8; 32])
    ensures
        out@ == spec_sha256(MLDSA_PROOF_PAYLOAD_TAG@ + payload@),
{
    sha256_concat(MLDSA_PROOF_PAYLOAD_TAG.as_slice(), payload)
}

/// The `verify_action` instruction data sent to the Falcon program.
pub open spec fn falcon_verify_ix(cluster: u8, nonce: u64, expires_slot: u64, action_domain: Seq<u8>, action_hash: Seq<u8>, signature: Seq<u8>) -> Seq<u8> {
    seq![TAG_VERIFY_ACTION, cluster] + spec_u64_to_le_bytes(nonce) + spec_u64_to_le_bytes(expires_slot) + action_domain + action_hash + signature
}

/// Builds the instruction data of the cross-program call to the Falcon program.
pub fn build_falcon_verify_ix(cluster: u8, nonce: u64, expires_slot: u64, action_domain: &[u8], action_hash: &[u8], signature: &[u8]) -> (out: Vec<u8>)
    ensures
        out@ == falcon_verify_ix(cluster, nonce, expires_slot, action_domain@, action_hash@, signature@),
{
    let mut out: Vec<u8> = Vec::new();
    out.push(TAG_VERIFY_ACTION);
    out.push(cluster);
    let n = u64_to_le_bytes(nonce);
    append_bytes(&mut out, n.as_slice());
    let e = u64_to_le_bytes(expires_slot);
    append_bytes(&mut out, e.as_slice());
    append_bytes(&mut out, action_domain);
    append_bytes(&mut out, action_hash);
    append_bytes(&mut out, signature);
    proof {
        assert(out@ =~= falcon_verify_ix(cluster, nonce, expires_slot, action_domain@, action_hash@, signature@));
    }
    out
}

/// The Falcon program reads back exactly the fields the quorum program sent: cluster, nonce,
/// expiry slot, action domain, action hash and signature.
pub proof fn law_falcon_ix_roundtrip(cluster: u8, nonce: u64, expires_slot: u64, action_domain: Seq<u8>, action_hash: Seq<u8>, signature: Seq<u8>)
    requires
        action_domain.len() == 32,
        action_hash.len() == 32,
        signature.len() == 666,
    ensures
        ({
            let ix = falcon_verify_ix(cluster, nonce, expires_slot, action_domain, action_hash, signature);
            let data = ix.subrange(1, ix.len() as int);
            &&& ix[0] == TAG_VERIFY_ACTION
            &&& data.len() == VERIFY_ACTION_DATA_LEN
            &&& ix_cluster(data) == cluster
            &&& ix_nonce(data) == nonce
            &&& ix_expires(data) == expires_slot
            &&& ix_domain(data) == action_domain
            &&& ix_hash(data) == action_hash
            &&& ix_signature(data) == signature
        }),
{
    lemma_auto_spec_u64_to_from_le_bytes();
    let ix = falcon_verify_ix(cluster, nonce, expires_slot, action_domain, action_hash, signature);
    let data = ix.subrange(1, ix.len() as int);
    assert(data.subrange(1, 9) =~= spec_u64_to_le_bytes(nonce));
    assert(data.subrange(9, 17) =~= spec_u64_to_le_bytes(expires_slot));
    assert(ix_domain(data) =~= action_domain);
    assert(ix_hash(data) =~= action_hash);
    assert(ix_signature(data) =~= signature);
}

/// Where each field sits in a v1 approval payload.
proof fn lemma_payload_fields(cluster: u8, program_id: Seq<u8>, authority: Seq<u8>, quorum: Seq<u8>, nonce: u64, expires_slot: u64,
    action_domain: Seq<u8>, action_hash: Seq<u8>, next_root: Seq<u8>)
    requires
        program_id.len() == 32, authority.len() == 32, quorum.len() == 32,
        action_domain.len() == 32, action_hash.len() == 32, next_root.len() == 32,
    ensures
        ({
            let p = quorum_payload(cluster, program_id, authority, quorum, nonce, expires_slot, action_domain, action_hash, next_root);
            &&& p.len() == 225
            &&& p[16] == cluster
            &&& p.subrange(17, 49) == program_id
            &&& p.subrange(49, 81) == authority
            &&& p.subrange(81, 113) == quorum
            &&& p.subrange(113, 121) == spec_u64_to_le_bytes(nonce)
            &&& p.subrange(121, 129) == spec_u64_to_le_bytes(expires_slot)
            &&& p.subrange(129, 161) == action_domain
            &&& p.subrange(161, 193) == action_hash
            &&& p.subrange(193, 225) == next_root
        }),
{
    lemma_auto_spec_u64_to_from_le_bytes();
    let p = quorum_payload(cluster, program_id, authority, quorum, nonce, expires_slot, action_domain, action_hash, next_root);
    assert(p.subrange(17, 49) =~= program_id);
    assert(p.subrange(49, 81) =~= authority);
    assert(p.subrange(81, 113) =~= quorum);
    assert(p.subrange(113, 121) =~= spec_u64_to_le_bytes(nonce));
    assert(p.subrange(121, 129) =~= spec_u64_to_le_bytes(expires_slot));
    assert(p.subrange(129, 161) =~= action_domain);
    assert(p.subrange(161, 193) =~= action_hash);
    assert(p.subrange(193, 225) =~= next_root);
}

/// Where each field sits in a v2 approval payload.
proof fn lemma_payload_v2_fields(mode: u8, cluster: u8, program_id: Seq<u8>, authority: Seq<u8>, quorum: Seq<u8>, mldsa_public_key: Seq<u8>,
    nonce: u64, expires_slot: u64, action_domain: Seq<u8>, action_hash: Seq<u8>, current_root: Seq<u8>, next_root: Seq<u8>)
    requires
        program_id.len() == 32, authority.len() == 32, quorum.len() == 32, mldsa_public_key.len() == 32,
        action_domain.len() == 32, action_hash.len() == 32, current_root.len() == 32, next_root.len() == 32,
    ensures
        ({
            let p = quorum_payload_v2(mode, cluster, program_id, authority, quorum, mldsa_public_key, nonce, expires_slot, action_domain,
                action_hash, current_root, next_root);
            &&& p.len() == 290
            &&& p[16] == mode
            &&& p[17] == cluster
            &&& p.subrange(18, 50) == program_id
            &&& p.subrange(50, 82) == authority
            &&& p.subrange(82, 114) == quorum
            &&& p.subrange(114, 146) == mldsa_public_key
            &&& p.subrange(146, 154) == spec_u64_to_le_bytes(nonce)
            &&& p.subrange(154, 162) == spec_u64_to_le_bytes(expires_slot)
            &&& p.subrange(162, 194) == action_domain
            &&& p.subrange(194, 226) == action_hash
            &&& p.subrange(226, 258) == current_root
            &&& p.subrange(258, 290) == next_root
        }),
{
    lemma_auto_spec_u64_to_from_le_bytes();
    let p = quorum_payload_v2(mode, cluster, program_id, authority, quorum, mldsa_public_key, nonce, expires_slot, action_domain,
        action_hash, current_root, next_root);
    assert(p.subrange(18, 50) =~= program_id);
    assert(p.subrange(50, 82) =~= authority);
    assert(p.subrange(82, 114) =~= quorum);
    assert(p.subrange(114, 146) =~= mldsa_public_key);
    assert(p.subrange(146, 154) =~= spec_u64_to_le_bytes(nonce));
    assert(p.subrange(154, 162) =~= spec_u64_to_le_bytes(expires_slot));
    assert(p.subrange(162, 194) =~= action_domain);
    assert(p.subrange(194, 226) =~= action_hash);
    assert(p.subrange(226, 258) =~= current_root);
    assert(p.subrange(258, 290) =~= next_root);
}

/// A v1 approval payload binds every field it is built from: two payloads are equal only
/// when cluster, program, authority, quorum, nonce, expiry, action domain, action hash and
/// next root are all equal, so a signature over one approval approves no other.
pub proof fn law_payload_binds_fields(cluster: u8, program_id: Seq<u8>, authority: Seq<u8>, quorum: Seq<u8>, nonce: u64, expires_slot: u64,
    action_domain: Seq<u8>, action_hash: Seq<u8>, next_root: Seq<u8>,
    cluster2: u8, program_id2: Seq<u8>, authority2: Seq<u8>, quorum2: Seq<u8>, nonce2: u64, expires_slot2: u64,
    action_domain2: Seq<u8>, action_hash2: Seq<u8>, next_root2: Seq<u8>)
    requires
        program_id.len() == 32, authority.len() == 32, quorum.len() == 32,
        action_domain.len() == 32, action_hash.len() == 32, next_root.len() == 32,
        program_id2.len() == 32, authority2.len() == 32, quorum2.len() == 32,
        action_domain2.len() == 32, action_hash2.len() == 32, next_root2.len() == 32,
        quorum_payload(cluster, program_id, authority, quorum, nonce, expires_slot, action_domain, action_hash, next_root)
            == quorum_payload(cluster2, program_id2, authority2, quorum2, nonce2, expires_slot2, action_domain2, action_hash2, next_root2),
    ensures
        cluster == cluster2, program_id == program_id2, authority == authority2, quorum == quorum2, nonce == nonce2,
        expires_slot == expires_slot2, action_domain == action_domain2, action_hash == action_hash2, next_root == next_root2,
{
    lemma_auto_spec_u64_to_from_le_bytes();
    lemma_payload_fields(cluster, program_id, authority, quorum, nonce, expires_slot, action_domain, action_hash, next_root);
    lemma_payload_fields(cluster2, program_id2, authority2, quorum2, nonce2, expires_slot2, action_domain2, action_hash2, next_root2);
}

/// A v2 approval payload binds every field it is built from: two payloads are equal only
/// when mode, cluster, program, authority, quorum, ML-DSA key account, nonce, expiry, action
/// domain, action hash, current root and next root are all equal.
pub proof fn law_payload_v2_binds_fields(mode: u8, cluster: u8, program_id: Seq<u8>, authority: Seq<u8>, quorum: Seq<u8>, mldsa_public_key: Seq<u8>,
    nonce: u64, expires_slot: u64, action_domain: Seq<u8>, action_hash: Seq<u8>, current_root: Seq<u8>, next_root: Seq<u8>,
    mode2: u8, cluster2: u8, program_id2: Seq<u8>, authority2: Seq<u8>, quorum2: Seq<u8>, mldsa_public_key2: Seq<u8>,
    nonce2: u64, expires_slot2: u64, action_domain2: Seq<u8>, action_hash2: Seq<u8>, current_root2: Seq<u8>, next_root2: Seq<u8>)
    requires
        program_id.len() == 32, authority.len() == 32, quorum.len() == 32, mldsa_public_key.len() == 32,
        action_domain.len() == 32, action_hash.len() == 32, current_root.len() == 32, next_root.len() == 32,
        program_id2.len() == 32, authority2.len() == 32, quorum2.len() == 32, mldsa_public_key2.len() == 32,
        action_domain2.len() == 32, action_hash2.len() == 32, current_root2.len() == 32, next_root2.len() == 32,
        quorum_payload_v2(mode, cluster, program_id, authority, quorum, mldsa_public_key, nonce, expires_slot, action_domain, action_hash,
            current_root, next_root)
            == quorum_payload_v2(mode2, cluster2, program_id2, authority2, quorum2, mldsa_public_key2, nonce2, expires_slot2, action_domain2,
                action_hash2, current_root2, next_root2),
    ensures
        mode == mode2, cluster == cluster2, program_id == program_id2, authority == authority2, quorum == quorum2,
        mldsa_public_key == mldsa_public_key2, nonce == nonce2, expires_slot == expires_slot2, action_domain == action_domain2,
        action_hash == action_hash2, current_root == current_root2, next_root == next_root2,
{
    lemma_auto_spec_u64_to_from_le_bytes();
    lemma_payload_v2_fields(mode, cluster, program_id, authority, quorum, mldsa_public_key, nonce, expires_slot, action_domain, action_hash,
        current_root, next_root);
    lemma_payload_v2_fields(mode2, cluster2, program_id2, authority2, quorum2, mldsa_public_key2, nonce2, expires_slot2, action_domain2,
        action_hash2, current_root2, next_root2);
}

} // verus!
