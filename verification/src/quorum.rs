//! The post-quantum quorum program: Falcon, Winternitz and ML-DSA approvals of one action.
pub mod state;
pub mod wots;
pub mod payload;
pub mod mldsa_proof;
pub mod approve;
pub mod setup;
