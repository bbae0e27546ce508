//! Post-quantum smart accounts: spend counters, buffered Falcon signatures and transfers.
pub mod state;
pub mod transfer;
pub mod setup;
