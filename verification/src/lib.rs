//! A didactic blockchain engine: an append-only chain of proof-of-work
//! blocks carrying transactions that mutate a world state of account
//! balances, secured by per-transfer digital signatures and an adaptive
//! difficulty target.

pub mod bignum;
pub mod crypto;
pub mod encode;
pub mod messages;
pub mod text;
pub mod traits;
pub mod types;
pub mod utils;
