use vstd::prelude::*;

pub mod arith;
pub mod ntt;
pub mod encode;
pub mod sample;
pub mod layout;
pub mod protocol;

verus! {

} // verus!
