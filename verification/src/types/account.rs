use vstd::prelude::*;
use crate::types::Balance;

verus! {

#[derive(Debug, Clone, Copy, PartialEq, Eq, Structural)]
pub enum AccountType {
    User,
    Contract,
}

/// A ledger account: its kind, its token balance, and the public key that
/// its transfers must be signed with.
#[derive(Debug, Clone)]
pub struct Account {
    pub account_type: AccountType,
    pub balance: Balance,
    pub public_key: Vec<u8>,
}

/// The mathematical shadow of an account.
pub struct AccountV {
    pub account_type: AccountType,
    pub balance: Balance,
    pub public_key: Seq<u8>,
}

impl View for Account {
    type V = AccountV;

    open spec fn view(&self) -> AccountV {
        AccountV {
            account_type: self.account_type,
            balance: self.balance,
            public_key: self.public_key@,
        }
    }
}

impl Account {
    /// A fresh account with a zero balance.
    pub fn new(account_type: AccountType, public_key: Vec<u8>) -> (r: Account)
        ensures
            r@ == (AccountV { account_type, balance: 0, public_key: public_key@ }),
    {
        Account { account_type, balance: 0, public_key }
    }
}

/// An exact copy of a byte string.
pub fn clone_bytes(v: &Vec<u8>) -> (r: Vec<u8>)
    ensures
        r@ == v@,
{
    let mut r: Vec<u8> = Vec::new();
    let mut i: usize = 0;
    while i < v.len()
        invariant
            i <= v@.len(),
            r@ == v@.subrange(0, i as int),
        decreases v@.len() - i,
    {
        r.push(v[i]);
        assert(r@ =~= v@.subrange(0, i + 1 as int));
        i = i + 1;
    }
    assert(r@ =~= v@);
    r
}

/// An exact copy of an account, field by field.
pub fn clone_account(a: &Account) -> (r: Account)
    ensures
        r@ == a@,
{
    Account { account_type: a.account_type, balance: a.balance, public_key: clone_bytes(&a.public_key) }
}

} // verus!
