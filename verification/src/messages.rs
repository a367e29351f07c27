//! The error messages of the engine, as spec-level text. Every error a
//! verified function returns is pinned to one of these.

use vstd::prelude::*;
use crate::text::spec_dec;

verus! {

pub open spec fn msg_account_exists() -> Seq<char> {
    "AccountId already exist"@
}

pub open spec fn msg_invalid_account() -> Seq<char> {
    "Invalid account."@
}

pub open spec fn msg_mint_only_genesis() -> Seq<char> {
    "Initial supply can be minted only in genesis block."@
}

pub open spec fn msg_balance_overflow() -> Seq<char> {
    "Balance overflow."@
}

pub open spec fn msg_transfer_from_missing() -> Seq<char> {
    "You can't make transfer from non-existing account"@
}

pub open spec fn msg_transfer_to_missing() -> Seq<char> {
    "You can't make transfer to non-existing account"@
}

pub open spec fn msg_insufficient_funds() -> Seq<char> {
    "You can't transfer more tokens than you have"@
}

pub open spec fn msg_should_be_signed() -> Seq<char> {
    "Error: msg should be signed"@
}

pub open spec fn msg_should_have_sender() -> Seq<char> {
    "Error: msg should have sender to sign it"@
}

pub open spec fn msg_sig_verify_failed() -> Seq<char> {
    "Error: error occurred while verifying signature"@
}

/// The wrapping a transfer puts around a signature error.
pub open spec fn msg_sig_prefix(e: Seq<char>) -> Seq<char> {
    "Error while verifying signature: "@ + e
}

/// The wrapping the block runner puts around a transaction error.
pub open spec fn msg_tx_prefix(e: Seq<char>) -> Seq<char> {
    "Error during tx execution: "@ + e
}

pub open spec fn msg_block_invalid_hash() -> Seq<char> {
    "Block has invalid hash"@
}

pub open spec fn msg_zero_transactions() -> Seq<char> {
    "Block has 0 transactions."@
}

pub open spec fn msg_block_n_invalid_hash(n: nat) -> Seq<char> {
    "Block "@ + spec_dec(n) + " has invalid hash"@
}

pub open spec fn msg_block_no_prev_hash(n: nat) -> Seq<char> {
    "Block "@ + spec_dec(n) + " doesn't have prev_hash"@
}

pub open spec fn msg_genesis_prev_hash() -> Seq<char> {
    "Genesis block shouldn't have prev_hash"@
}

pub open spec fn msg_prev_hash_mismatch(n: nat) -> Seq<char> {
    "Block "@ + spec_dec(n + 1) + " prev_hash doesn't match Block "@ + spec_dec(n) + " hash"@
}

} // verus!
