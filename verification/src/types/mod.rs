pub mod account;
pub mod block;
pub mod blockchain;
pub mod chain;
pub mod miner;
pub mod transaction;

pub use account::Account;
pub use account::AccountType;
pub use account::AccountV;
pub use blockchain::Blockchain;
pub use block::Block;
pub use block::BlockV;
pub use chain::Chain;
pub use chain::ChainIter;
pub use miner::mine;
pub use transaction::Transaction;
pub use transaction::TransactionData;
pub use transaction::TransactionDataV;
pub use transaction::TransactionV;

use vstd::prelude::*;

verus! {

pub type Hash = String;

pub type Timestamp = u128;

pub type Balance = u128;

pub type Error = String;

pub type AccountId = String;

} // verus!
