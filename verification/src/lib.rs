//! Verified core of the Falcon-512 / post-quantum quorum authorization programs.
use vstd::prelude::*;

pub mod digest;
pub mod mldsa44;
pub mod runtime;
pub mod falcon_auth;
pub mod quorum;
pub mod vault;
pub mod consumer;
pub mod registry;
pub mod smart_account;
pub mod dispatch;

verus! {

} // verus!
