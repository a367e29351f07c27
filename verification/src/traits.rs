use vstd::prelude::*;
use crate::messages::msg_account_exists;
use crate::types::Account;
use crate::types::AccountId;
use crate::types::AccountType;
use crate::types::AccountV;
use crate::types::Balance;
use crate::types::Error;

verus! {

/// A value with a canonical hex-text digest.
pub trait Hashable {
    /// What the digest of this value is.
    spec fn hash_spec(&self) -> Seq<char>;

    fn hash(&self) -> (r: crate::types::Hash)
        ensures
            r@ == self.hash_spec(),
    ;
}

/// The narrow capability a transaction needs from the world state: create
/// an account, look one up, and rebind one account's balance.
pub trait WorldState: Sized {
    /// Whatever the implementer carries besides the account map; the
    /// mutators below leave it alone.
    type Frame;

    /// The world state as a mapping from account id to account.
    spec fn state_map(&self) -> Map<Seq<char>, AccountV>;

    /// The implementer's state outside the account map.
    spec fn state_frame(&self) -> Self::Frame;

    /// Creates a fresh zero-balance account under `account_id`; refuses an
    /// id that is already taken, and changes nothing in that case.
    fn create_account(
        &mut self,
        account_id: AccountId,
        account_type: AccountType,
        public_key: Vec<u8>,
    ) -> (r: Result<(), Error>)
        ensures
            match r {
                Ok(()) => !old(self).state_map().contains_key(account_id@)
                    && final(self).state_map() == old(self).state_map().insert(
                    account_id@,
                    (AccountV { account_type, balance: 0, public_key: public_key@ }),
                ),
                Err(e) => old(self).state_map().contains_key(account_id@)
                    && final(self).state_map() == old(self).state_map() && e@
                    == msg_account_exists(),
            },
            final(self).state_frame() == old(self).state_frame(),
    ;

    /// Looks an account up by its id.
    fn get_account_by_id(&self, account_id: AccountId) -> (r: Option<&Account>)
        ensures
            match r {
                Some(a) => self.state_map().contains_key(account_id@) && a@ == self.state_map()[account_id@],
                None => !self.state_map().contains_key(account_id@),
            },
    ;

    /// Rebinds the balance of an existing account, leaving its other
    /// fields and every other account as they were.
    fn set_balance(&mut self, account_id: AccountId, balance: Balance)
        requires
            old(self).state_map().contains_key(account_id@),
        ensures
            final(self).state_map() == old(self).state_map().insert(
                account_id@,
                (AccountV {
                    account_type: old(self).state_map()[account_id@].account_type,
                    balance,
                    public_key: old(self).state_map()[account_id@].public_key,
                }),
            ),
            final(self).state_frame() == old(self).state_frame(),
    ;
}

} // verus!
