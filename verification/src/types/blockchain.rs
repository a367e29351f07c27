use vstd::prelude::*;
use vstd::string::StringExecFns;
use crate::bignum::initial_target;
use crate::bignum::le_value;
use crate::bignum::next_target;
use crate::bignum::spec_initial_target;
use crate::bignum::spec_next_target;
use crate::messages::msg_block_invalid_hash;
use crate::messages::msg_block_n_invalid_hash;
use crate::messages::msg_block_no_prev_hash;
use crate::messages::msg_genesis_prev_hash;
use crate::messages::msg_prev_hash_mismatch;
use crate::messages::msg_tx_prefix;
use crate::messages::msg_zero_transactions;
use crate::text::dec_string;
use crate::traits::Hashable;
use crate::traits::WorldState;
use crate::types::Account;
use crate::types::AccountId;
use crate::types::AccountType;
use crate::types::AccountV;
use crate::types::Balance;
use crate::types::Block;
use crate::types::BlockV;
use crate::types::Chain;
use crate::types::Error;
use crate::types::Transaction;
use crate::types::TransactionV;
use crate::types::account::clone_account;
use crate::types::block::spec_block_hash;
use crate::types::block::spec_block_hash_value;
use crate::types::block::spec_block_verify;
use crate::types::miner::mine;
use crate::types::transaction::spec_execute;

verus! {

// ------------------------------------------------------------------
// The world state: an account table with unique ids, read as a map.
// ------------------------------------------------------------------

/// The account table read as a map from id to account, later entries
/// taking precedence.
pub open spec fn spec_accounts_map(s: Seq<(AccountId, Account)>) -> Map<Seq<char>, AccountV>
    decreases s.len(),
{
    if s.len() == 0 {
        Map::<Seq<char>, AccountV>::empty()
    } else {
        spec_accounts_map(s.drop_last()).insert(s.last().0@, s.last().1@)
    }
}

/// No two entries share an id.
pub open spec fn spec_accounts_unique(s: Seq<(AccountId, Account)>) -> bool {
    forall|i: int, j: int| 0 <= i < j < s.len() ==> s[i].0@ != s[j].0@
}

/// A key is in the map exactly when some entry carries it.
proof fn lemma_accounts_contains(s: Seq<(AccountId, Account)>, k: Seq<char>)
    ensures
        spec_accounts_map(s).contains_key(k) <==> exists|i: int| 0 <= i < s.len() && s[i].0@ == k,
    decreases s.len(),
{
    if s.len() > 0 {
        lemma_accounts_contains(s.drop_last(), k);
        if s.last().0@ == k {
            assert(s[s.len() - 1].0@ == k);
        } else if spec_accounts_map(s).contains_key(k) {
            let i = choose|i: int| 0 <= i < s.drop_last().len() && s.drop_last()[i].0@ == k;
            assert(s[i].0@ == k);
        } else {
            assert(forall|i: int| 0 <= i < s.len() - 1 ==> s.drop_last()[i] == s[i]);
        }
    }
}

/// With unique ids, the map binds each entry's id to that entry.
proof fn lemma_accounts_index(s: Seq<(AccountId, Account)>, i: int)
    requires
        spec_accounts_unique(s),
        0 <= i < s.len(),
    ensures
        spec_accounts_map(s).contains_key(s[i].0@),
        spec_accounts_map(s)[s[i].0@] == s[i].1@,
    decreases s.len(),
{
    if i == s.len() - 1 {
    } else {
        assert(forall|j: int| 0 <= j < s.len() - 1 ==> s.drop_last()[j] == s[j]);
        lemma_accounts_index(s.drop_last(), i);
        assert(s[i].0@ != s.last().0@);
    }
}

/// Rebinding one entry's account rewrites exactly that id's binding.
proof fn lemma_accounts_map_update(s: Seq<(AccountId, Account)>, t: Seq<(AccountId, Account)>, i: int)
    requires
        spec_accounts_unique(s),
        t.len() == s.len(),
        0 <= i < s.len(),
        forall|j: int| 0 <= j < s.len() && j != i ==> t[j] == s[j],
        t[i].0@ == s[i].0@,
    ensures
        spec_accounts_map(t) == spec_accounts_map(s).insert(s[i].0@, t[i].1@),
        spec_accounts_unique(t),
    decreases s.len(),
{
    assert(spec_accounts_unique(t)) by {
        assert(forall|p: int, q: int| 0 <= p < q < t.len() ==> t[p].0@ != t[q].0@) by {
            assert(forall|p: int| 0 <= p < t.len() ==> t[p].0@ == s[p].0@);
        }
    }
    if i == s.len() - 1 {
        assert(t.drop_last() =~= s.drop_last());
        assert(spec_accounts_map(t) == spec_accounts_map(s.drop_last()).insert(t.last().0@, t.last().1@));
        assert(spec_accounts_map(s).insert(s[i].0@, t[i].1@) =~= spec_accounts_map(s.drop_last()).insert(t.last().0@, t.last().1@));
    } else {
        assert(forall|j: int| 0 <= j < s.len() - 1 && j != i ==> t.drop_last()[j] == s.drop_last()[j]);
        assert(t.drop_last()[i] == t[i]);
        lemma_accounts_map_update(s.drop_last(), t.drop_last(), i);
        assert(t.last() == s.last());
        assert(s[i].0@ != s.last().0@);
        assert(spec_accounts_map(t) =~= spec_accounts_map(s).insert(s[i].0@, t[i].1@));
    }
}

/// Entry-wise equal tables read as the same map.
proof fn lemma_accounts_map_congruent(s: Seq<(AccountId, Account)>, t: Seq<(AccountId, Account)>)
    requires
        t.len() == s.len(),
        forall|i: int| 0 <= i < s.len() ==> t[i].0@ == s[i].0@ && t[i].1@ == s[i].1@,
    ensures
        spec_accounts_map(t) == spec_accounts_map(s),
        spec_accounts_unique(s) ==> spec_accounts_unique(t),
    decreases s.len(),
{
    if s.len() > 0 {
        assert(forall|i: int| 0 <= i < s.len() - 1 ==> t.drop_last()[i] == t[i] && s.drop_last()[i]
            == s[i]);
        lemma_accounts_map_congruent(s.drop_last(), t.drop_last());
    }
}

/// An exact copy of the account table, entry by entry.
fn clone_accounts(v: &Vec<(AccountId, Account)>) -> (r: Vec<(AccountId, Account)>)
    ensures
        r@.len() == v@.len(),
        forall|i: int| 0 <= i < v@.len() ==> r@[i].0@ == v@[i].0@ && r@[i].1@ == v@[i].1@,
{
    let mut r: Vec<(AccountId, Account)> = Vec::new();
    let mut i: usize = 0;
    while i < v.len()
        invariant
            i <= v@.len(),
            r@.len() == i,
            forall|j: int| 0 <= j < i ==> r@[j].0@ == v@[j].0@ && r@[j].1@ == v@[j].1@,
        decreases v@.len() - i,
    {
        let pair = &v[i];
        r.push((pair.0.clone(), clone_account(&pair.1)));
        i = i + 1;
    }
    r
}

// ------------------------------------------------------------------
// The difficulty schedule.
// ------------------------------------------------------------------

/// The timestamp seen before walking block `i`: zero at the start, else
/// the previous block's.
pub open spec fn spec_prev_ts(blocks: Seq<BlockV>, i: int) -> u128 {
    if i <= 0 {
        0
    } else {
        blocks[i - 1].timestamp
    }
}

/// The target after walking the first `i` blocks from the oldest: each
/// block with a positive number retargets by its observed block time.
pub open spec fn spec_tgt_after(blocks: Seq<BlockV>, i: int) -> nat
    decreases i,
{
    if i <= 0 {
        spec_initial_target()
    } else {
        let prev = spec_tgt_after(blocks, i - 1);
        if blocks[i - 1].block_number > 0 {
            spec_next_target(prev, spec_prev_ts(blocks, i - 1), blocks[i - 1].timestamp)
        } else {
            prev
        }
    }
}

/// The first position at or after `i` whose block carries number `n`,
/// or the length if none does.
pub open spec fn spec_stop_from(blocks: Seq<BlockV>, n: u128, i: int) -> int
    decreases blocks.len() - i,
{
    if i >= blocks.len() {
        i
    } else if blocks[i].block_number == n {
        i
    } else {
        spec_stop_from(blocks, n, i + 1)
    }
}

/// The target that the block numbered `n` had to beat: the evolved
/// target after every block older than the first block numbered `n`
/// (after the whole chain if no block carries `n`).
pub open spec fn spec_get_target(blocks: Seq<BlockV>, n: u128) -> nat {
    spec_tgt_after(blocks, spec_stop_from(blocks, n, 0))
}

/// Where the walk stops: at the first match, else at the length.
proof fn lemma_stop_from(blocks: Seq<BlockV>, n: u128, i: int)
    requires
        0 <= i <= blocks.len(),
    ensures
        i <= spec_stop_from(blocks, n, i) <= blocks.len(),
        spec_stop_from(blocks, n, i) < blocks.len() ==> blocks[spec_stop_from(
            blocks,
            n,
            i,
        )].block_number == n,
        forall|j: int|
            i <= j < spec_stop_from(blocks, n, i) ==> blocks[j].block_number != n,
    decreases blocks.len() - i,
{
    if i < blocks.len() && blocks[i].block_number != n {
        lemma_stop_from(blocks, n, i + 1);
    }
}

/// The walk over the first `i` blocks reads nothing past them.
proof fn lemma_tgt_after_prefix(b1: Seq<BlockV>, b2: Seq<BlockV>, i: int)
    requires
        i <= b1.len(),
        i <= b2.len(),
        forall|j: int| 0 <= j < i ==> b1[j] == b2[j],
    ensures
        spec_tgt_after(b1, i) == spec_tgt_after(b2, i),
    decreases i,
{
    if i > 0 {
        lemma_tgt_after_prefix(b1, b2, i - 1);
    }
}

// ------------------------------------------------------------------
// Applying a block's transactions in order, all-or-nothing.
// ------------------------------------------------------------------

/// The world state after executing the transactions in order, or the
/// first error.
pub open spec fn spec_apply_txs(
    m: Map<Seq<char>, AccountV>,
    txs: Seq<TransactionV>,
    is_genesis: bool,
) -> Result<Map<Seq<char>, AccountV>, Seq<char>>
    decreases txs.len(),
{
    if txs.len() == 0 {
        Ok(m)
    } else {
        match spec_execute(txs[0], m, is_genesis) {
            Err(e) => Err(e),
            Ok(m2) => spec_apply_txs(m2, txs.drop_first(), is_genesis),
        }
    }
}

/// Executing a list splits at any point into executing a prefix and then
/// the rest.
proof fn lemma_apply_txs_split(
    m: Map<Seq<char>, AccountV>,
    txs: Seq<TransactionV>,
    i: int,
    is_genesis: bool,
)
    requires
        0 <= i <= txs.len(),
    ensures
        spec_apply_txs(m, txs, is_genesis) == (match spec_apply_txs(m, txs.take(i), is_genesis) {
            Err(e) => Err(e),
            Ok(mm) => spec_apply_txs(mm, txs.skip(i), is_genesis),
        }),
    decreases i,
{
    if i == 0 {
        assert(txs.take(0) =~= Seq::<TransactionV>::empty());
        assert(txs.skip(0) =~= txs);
    } else {
        assert(txs.take(i)[0] == txs[0]);
        match spec_execute(txs[0], m, is_genesis) {
            Err(e) => {},
            Ok(m2) => {
                assert(txs.take(i).drop_first() =~= txs.drop_first().take(i - 1));
                assert(txs.skip(i) =~= txs.drop_first().skip(i - 1));
                lemma_apply_txs_split(m2, txs.drop_first(), i - 1, is_genesis);
            },
        }
    }
}

// ------------------------------------------------------------------
// Validation.
// ------------------------------------------------------------------

/// The checks the validator makes at position `i`, walking newest to
/// oldest and reporting positions one-based: proof-of-work against the
/// target for the block's own number, the genesis/predecessor-link
/// shape, and the link from the next-newer block.
pub open spec fn spec_check_block(blocks: Seq<BlockV>, i: int) -> Result<(), Seq<char>> {
    let b = blocks[i];
    let bn = (i + 1) as nat;
    if !spec_block_verify(b, spec_get_target(blocks, b.block_number)) {
        Err(msg_block_n_invalid_hash(bn))
    } else if i != 0 && b.prev_hash is None {
        Err(msg_block_no_prev_hash(bn))
    } else if i == 0 && b.prev_hash is Some {
        Err(msg_genesis_prev_hash())
    } else if i + 1 < blocks.len() && blocks[i + 1].prev_hash is Some && blocks[i
        + 1].prev_hash->0 != b.hash->0 {
        Err(msg_prev_hash_mismatch(bn))
    } else {
        Ok(())
    }
}

/// The validator's verdict from position `i` down to the oldest block:
/// the first violation, or success.
pub open spec fn spec_validate_from(blocks: Seq<BlockV>, i: int) -> Result<(), Seq<char>>
    decreases i + 1,
{
    match spec_check_block(blocks, i) {
        Err(e) => Err(e),
        Ok(()) => {
            if i <= 0 {
                Ok(())
            } else {
                spec_validate_from(blocks, i - 1)
            }
        },
    }
}

/// The validator's verdict on a chain, walking newest to oldest.
pub open spec fn spec_validate(blocks: Seq<BlockV>) -> Result<(), Seq<char>> {
    if blocks.len() == 0 {
        Ok(())
    } else {
        spec_validate_from(blocks, blocks.len() - 1)
    }
}

/// Positions that all check out can be walked past.
proof fn lemma_validate_from_skip(blocks: Seq<BlockV>, hi: int, k: int)
    requires
        0 <= k <= hi < blocks.len(),
        forall|j: int| k < j <= hi ==> spec_check_block(blocks, j) is Ok,
    ensures
        spec_validate_from(blocks, hi) == spec_validate_from(blocks, k),
    decreases hi - k,
{
    if hi > k {
        lemma_validate_from_skip(blocks, hi - 1, k);
    }
}

// ------------------------------------------------------------------
// The blockchain aggregate.
// ------------------------------------------------------------------

/// The chain of blocks together with the world state it produced and a
/// buffer of not-yet-included transactions.
pub struct Blockchain {
    blocks: Chain<Block>,
    accounts: Vec<(AccountId, Account)>,
    transaction_pool: Vec<Transaction>,
}

impl WorldState for Blockchain {
    type Frame = (Seq<Block>, Seq<Transaction>);

    closed spec fn state_map(&self) -> Map<Seq<char>, AccountV> {
        spec_accounts_map(self.accounts@)
    }

    closed spec fn state_frame(&self) -> (Seq<Block>, Seq<Transaction>) {
        (self.blocks@, self.transaction_pool@)
    }

    fn create_account(
        &mut self,
        account_id: AccountId,
        account_type: AccountType,
        public_key: Vec<u8>,
    ) -> (r: Result<(), Error>) {
        proof {
            use_type_invariant(&*self);
        }
        match self.find_account(&account_id) {
            Some(_) => {
                proof {
                    lemma_accounts_contains(self.accounts@, account_id@);
                }
                Err("AccountId already exist".to_owned())
            },
            None => {
                proof {
                    lemma_accounts_contains(self.accounts@, account_id@);
                }
                let account = Account::new(account_type, public_key);
                let ghost s = self.accounts@;
                // The table leaves the struct while it changes: the type
                // invariant is judged on the struct, not on the local.
                let mut accounts: Vec<(AccountId, Account)> = Vec::new();
                core::mem::swap(&mut accounts, &mut self.accounts);
                accounts.push((account_id, account));
                core::mem::swap(&mut accounts, &mut self.accounts);
                proof {
                    assert(self.accounts@.drop_last() =~= s);
                    assert forall|p: int, q: int|
                        0 <= p < q < self.accounts@.len() implies self.accounts@[p].0@
                        != self.accounts@[q].0@ by {
                        if q < self.accounts@.len() - 1 {
                            assert(s[p].0@ != s[q].0@);
                        } else {
                            assert(s[p].0@ != account_id@);
                        }
                    }
                }
                Ok(())
            },
        }
    }

    fn get_account_by_id(&self, account_id: AccountId) -> (r: Option<&Account>) {
        proof {
            use_type_invariant(self);
        }
        match self.find_account(&account_id) {
            Some(i) => {
                proof {
                    lemma_accounts_index(self.accounts@, i as int);
                }
                let pair = &self.accounts[i];
                Some(&pair.1)
            },
            None => {
                proof {
                    lemma_accounts_contains(self.accounts@, account_id@);
                }
                None
            },
        }
    }

    fn set_balance(&mut self, account_id: AccountId, balance: Balance) {
        proof {
            use_type_invariant(&*self);
        }
        let i = match self.find_account(&account_id) {
            Some(i) => i,
            None => {
                proof {
                    lemma_accounts_contains(self.accounts@, account_id@);
                }
                vstd::pervasive::unreached::<usize>()
            },
        };
        let ghost s = self.accounts@;
        // The table leaves the struct while it changes: the type invariant
        // is judged on the struct, not on the local.
        let mut accounts: Vec<(AccountId, Account)> = Vec::new();
        core::mem::swap(&mut accounts, &mut self.accounts);
        let pair = &mut accounts[i];
        pair.1.balance = balance;
        core::mem::swap(&mut accounts, &mut self.accounts);
        proof {
            lemma_accounts_map_update(s, self.accounts@, i as int);
            lemma_accounts_index(s, i as int);
        }
    }
}

impl Blockchain {
    /// Account ids are unique in the account table.
    #[verifier::type_invariant]
    spec fn wf(&self) -> bool {
        spec_accounts_unique(self.accounts@)
    }

    /// The blocks of the chain, oldest first.
    pub closed spec fn blocks_seq(&self) -> Seq<Block> {
        self.blocks@
    }

    /// The mathematical shadow of the chain, oldest first.
    pub open spec fn blocks_view(&self) -> Seq<BlockV> {
        self.blocks_seq().map(|i: int, b: Block| b@)
    }

    /// Finds the position of an account id in the table.
    fn find_account(&self, account_id: &AccountId) -> (r: Option<usize>)
        ensures
            match r {
                Some(i) => i < self.accounts@.len() && self.accounts@[i as int].0@ == account_id@,
                None => forall|j: int|
                    0 <= j < self.accounts@.len() ==> self.accounts@[j].0@ != account_id@,
            },
    {
        let mut i: usize = 0;
        while i < self.accounts.len()
            invariant
                i <= self.accounts@.len(),
                forall|j: int| 0 <= j < i ==> self.accounts@[j].0@ != account_id@,
            decreases self.accounts@.len() - i,
        {
            let pair = &self.accounts[i];
            if pair.0 == *account_id {
                return Some(i);
            }
            i = i + 1;
        }
        None
    }

    pub fn new() -> (r: Self)
        ensures
            r.blocks_view() == Seq::<BlockV>::empty(),
            r.state_map() == Map::<Seq<char>, AccountV>::empty(),
    {
        let r = Blockchain { blocks: Chain::new(), accounts: Vec::new(), transaction_pool: Vec::new() };
        proof {
            assert(r.blocks_view() =~= Seq::<BlockV>::empty());
        }
        r
    }

    pub fn len(&self) -> (r: usize)
        ensures
            r == self.blocks_view().len(),
    {
        self.blocks.len()
    }

    /// Read access to the chain itself.
    pub fn blocks(&self) -> (r: &Chain<Block>)
        ensures
            r@ == self.blocks_seq(),
    {
        &self.blocks
    }

    /// Replaces the block at a position, leaving the world state alone.
    pub fn set_block(&mut self, i: usize, block: Block)
        requires
            i < old(self).blocks_view().len(),
        ensures
            final(self).blocks_view() == old(self).blocks_view().update(i as int, block@),
            final(self).state_map() == old(self).state_map(),
    {
        proof {
            use_type_invariant(&*self);
        }
        let mut blocks: Chain<Block> = Chain::new();
        core::mem::swap(&mut blocks, &mut self.blocks);
        blocks.set(i, block);
        core::mem::swap(&mut blocks, &mut self.blocks);
        proof {
            assert(final(self).blocks_view() =~= old(self).blocks_view().update(i as int, block@));
        }
    }

    /// The hash of the newest block, recomputed from its fields.
    pub fn get_last_block_hash(&self) -> (r: Option<crate::types::Hash>)
        ensures
            match r {
                None => self.blocks_view().len() == 0,
                Some(h) => self.blocks_view().len() > 0 && h@ == spec_block_hash(
                    self.blocks_view().last(),
                ),
            },
    {
        match self.blocks.head() {
            None => None,
            Some(b) => Some(b.hash()),
        }
    }

    /// The number of the newest block.
    pub fn get_last_block_number(&self) -> (r: Option<u128>)
        ensures
            match r {
                None => self.blocks_view().len() == 0,
                Some(n) => self.blocks_view().len() > 0 && n == self.blocks_view().last().block_number,
            },
    {
        match self.blocks.head() {
            None => None,
            Some(b) => Some(b.block_number),
        }
    }

    /// The target the next block to be mined has to beat.
    pub fn get_latest_target(&self) -> (r: Vec<u8>)
        ensures
            le_value(r@) == spec_get_target(self.blocks_view(), self.blocks_view().len() as u128),
    {
        let n = self.blocks.len();
        self.get_target(n as u128)
    }

    /// Walks the chain from the oldest block, retargeting per block, and
    /// stops at the first block numbered `block_number`.
    pub fn get_target(&self, block_number: u128) -> (r: Vec<u8>)
        ensures
            le_value(r@) == spec_get_target(self.blocks_view(), block_number),
    {
        let ghost bv = self.blocks_view();
        let mut target = initial_target();
        let mut prev_ts: u128 = 0;
        let n = self.blocks.len();
        let mut i: usize = 0;
        let mut stopped = false;
        while i < n && !stopped
            invariant
                n == bv.len(),
                i <= n,
                bv == self.blocks_view(),
                le_value(target@) == spec_tgt_after(bv, i as int),
                prev_ts == spec_prev_ts(bv, i as int),
                forall|j: int| 0 <= j < i ==> bv[j].block_number != block_number,
                stopped ==> i < n && bv[i as int].block_number == block_number,
            decreases n - i + (if stopped { 0int } else { 1int }),
        {
            let b = self.blocks.get(i);
            if b.block_number == block_number {
                stopped = true;
            } else {
                if b.block_number > 0 {
                    target = next_target(&target, prev_ts, b.timestamp);
                }
                prev_ts = b.timestamp;
                i = i + 1;
            }
        }
        proof {
            lemma_stop_from(bv, block_number, 0);
            let s = spec_stop_from(bv, block_number, 0);
            if stopped {
                assert(s == i) by {
                    if s < i {
                        assert(bv[s].block_number != block_number);
                    }
                    if s > i {
                        assert(bv[i as int].block_number != block_number);
                    }
                }
            } else {
                assert(i == n);
                assert(s == n) by {
                    if s < n {
                        assert(bv[s].block_number != block_number);
                    }
                }
            }
        }
        target
    }

    /// Renumbers the block to the chain length, mines it against the
    /// current target, and admits it. Mining samples the clock and
    /// searches nonces, so whether the block ends up beating the target
    /// is decided by the digest; everything after that is exact, in
    /// `admit_mined_block`.
    pub fn append_block(&mut self, block: Block) -> (r: Result<(), Error>)
        ensures
            match r {
                Ok(()) => {
                    &&& final(self).blocks_view().len() == old(self).blocks_view().len() + 1
                    &&& final(self).blocks_view().take(old(self).blocks_view().len() as int)
                        == old(self).blocks_view()
                    &&& final(self).blocks_view().last().block_number == old(
                        self,
                    ).blocks_view().len() as u128
                    &&& final(self).blocks_view().last().prev_hash == block@.prev_hash
                    &&& final(self).blocks_view().last().transactions == block@.transactions
                    &&& spec_block_verify(
                        final(self).blocks_view().last(),
                        spec_get_target(
                            old(self).blocks_view(),
                            old(self).blocks_view().len() as u128,
                        ),
                    )
                    &&& block@.transactions.len() > 0
                    &&& spec_apply_txs(
                        old(self).state_map(),
                        block@.transactions,
                        old(self).blocks_view().len() == 0,
                    ) == Ok::<Map<Seq<char>, AccountV>, Seq<char>>(final(self).state_map())
                },
                Err(e) => {
                    &&& final(self).blocks_view() == old(self).blocks_view()
                    &&& final(self).state_map() == old(self).state_map()
                    &&& (e@ == msg_block_invalid_hash() || (e@ == msg_zero_transactions()
                        && block@.transactions.len() == 0) || (spec_apply_txs(
                        old(self).state_map(),
                        block@.transactions,
                        old(self).blocks_view().len() == 0,
                    ) matches Err(inner) && e@ == msg_tx_prefix(inner)))
                },
            },
            block@.transactions.len() == 0 ==> r is Err,
            spec_apply_txs(
                old(self).state_map(),
                block@.transactions,
                old(self).blocks_view().len() == 0,
            ) is Err ==> r is Err,
    {
        let mut blk = block;
        let n = self.blocks.len();
        blk.block_number = n as u128;
        let target = self.get_latest_target();
        mine(&mut blk, &target);
        self.admit_mined_block(blk, &target)
    }

    /// Admits an already-mined block: it must pass proof-of-work against
    /// the given target, carry at least one transaction, and every
    /// transaction must execute in order; then it is linked onto the
    /// tip. The outcome, and the exact error otherwise, is a function of
    /// the block, the target and the current state alone, and on any
    /// error the world state and the chain are exactly as they were.
    #[verifier::rlimit(100)]
    pub fn admit_mined_block(&mut self, block: Block, target: &Vec<u8>) -> (r: Result<(), Error>)
        ensures
            r is Ok <==> (spec_block_verify(block@, le_value(target@))
                && block@.transactions.len() > 0 && spec_apply_txs(
                old(self).state_map(),
                block@.transactions,
                old(self).blocks_view().len() == 0,
            ) is Ok),
            match r {
                Ok(()) => {
                    &&& final(self).blocks_view() == old(self).blocks_view().push(block@)
                    &&& spec_apply_txs(
                        old(self).state_map(),
                        block@.transactions,
                        old(self).blocks_view().len() == 0,
                    ) == Ok::<Map<Seq<char>, AccountV>, Seq<char>>(final(self).state_map())
                },
                Err(e) => {
                    &&& final(self).blocks_view() == old(self).blocks_view()
                    &&& final(self).state_map() == old(self).state_map()
                    &&& e@ == (if !spec_block_verify(block@, le_value(target@)) {
                        msg_block_invalid_hash()
                    } else if block@.transactions.len() == 0 {
                        msg_zero_transactions()
                    } else {
                        msg_tx_prefix(
                            spec_apply_txs(
                                old(self).state_map(),
                                block@.transactions,
                                old(self).blocks_view().len() == 0,
                            )->Err_0,
                        )
                    })
                },
            },
    {
        proof {
            use_type_invariant(&*self);
        }
        let ghost old_bv = self.blocks_view();
        let ghost m0 = self.state_map();
        if !block.verify(target) {
            return Err("Block has invalid hash".to_owned());
        }
        let n = self.blocks.len();
        let is_genesis = n == 0;
        if block.transactions.len() == 0 {
            return Err("Block has 0 transactions.".to_owned());
        }
        let ghost txs = block@.transactions;
        let account_backup = clone_accounts(&self.accounts);
        let mut idx: usize = 0;
        while idx < block.transactions.len()
            invariant
                idx <= block.transactions@.len(),
                block@.transactions == txs,
                txs.len() > 0,
                spec_block_verify(block@, le_value(target@)),
                old_bv == old(self).blocks_view(),
                m0 == old(self).state_map(),
                is_genesis == (old(self).blocks_view().len() == 0),
                self.blocks_view() == old_bv,
                spec_accounts_unique(self.accounts@),
                spec_accounts_unique(old(self).accounts@),
                spec_apply_txs(m0, txs.take(idx as int), is_genesis) == Ok::<
                    Map<Seq<char>, AccountV>,
                    Seq<char>,
                >(self.state_map()),
                account_backup@.len() == old(self).accounts@.len(),
                forall|j: int|
                    0 <= j < account_backup@.len() ==> account_backup@[j].0@ == old(
                        self,
                    ).accounts@[j].0@ && account_backup@[j].1@ == old(self).accounts@[j].1@,
            decreases block.transactions@.len() - idx,
        {
            let ghost m_cur = self.state_map();
            let tx = &block.transactions[idx];
            assert(tx@ == txs[idx as int]);
            let res = tx.execute(self, is_genesis);
            proof {
                use_type_invariant(&*self);
            }
            match res {
                Ok(()) => {
                    proof {
                        let m_next = self.state_map();
                        assert(spec_execute(txs[idx as int], m_cur, is_genesis) == Ok::<
                            Map<Seq<char>, AccountV>,
                            Seq<char>,
                        >(m_next));
                        assert(txs.take(idx + 1).take(idx as int) =~= txs.take(idx as int));
                        lemma_apply_txs_split(m0, txs.take(idx + 1), idx as int, is_genesis);
                        let single = txs.take(idx + 1).skip(idx as int);
                        assert(single =~= seq![txs[idx as int]]);
                        assert(single.drop_first() =~= Seq::<TransactionV>::empty());
                        assert(spec_apply_txs(m_next, single.drop_first(), is_genesis) == Ok::<
                            Map<Seq<char>, AccountV>,
                            Seq<char>,
                        >(m_next));
                        assert(single[0] == txs[idx as int]);
                        assert(spec_apply_txs(m_cur, single, is_genesis) == Ok::<
                            Map<Seq<char>, AccountV>,
                            Seq<char>,
                        >(m_next));
                        assert(spec_apply_txs(m0, txs.take(idx + 1), is_genesis) == Ok::<
                            Map<Seq<char>, AccountV>,
                            Seq<char>,
                        >(m_next));
                    }
                    idx = idx + 1;
                },
                Err(e) => {
                    proof {
                        lemma_apply_txs_split(m0, txs, idx as int, is_genesis);
                        assert(txs.skip(idx as int)[0] == txs[idx as int]);
                        assert(spec_execute(txs[idx as int], m_cur, is_genesis) == Err::<
                            Map<Seq<char>, AccountV>,
                            Seq<char>,
                        >(e@));
                        assert(spec_apply_txs(m_cur, txs.skip(idx as int), is_genesis) == Err::<
                            Map<Seq<char>, AccountV>,
                            Seq<char>,
                        >(e@));
                        assert(spec_apply_txs(m0, txs, is_genesis) == Err::<
                            Map<Seq<char>, AccountV>,
                            Seq<char>,
                        >(e@));
                        lemma_accounts_map_congruent(old(self).accounts@, account_backup@);
                    }
                    self.accounts = account_backup;
                    let mut msg = "Error during tx execution: ".to_owned();
                    msg.append(e.as_str());
                    proof {
                        assert(msg@ =~= msg_tx_prefix(e@));
                    }
                    return Err(msg);
                },
            }
        }
        proof {
            assert(txs.take(txs.len() as int) =~= txs);
        }
        if !block.verify(target) {
            return Err("Block has invalid hash".to_owned());
        }
        let mut blocks: Chain<Block> = Chain::new();
        core::mem::swap(&mut blocks, &mut self.blocks);
        blocks.append(block);
        core::mem::swap(&mut blocks, &mut self.blocks);
        proof {
            assert(final(self).blocks_view() =~= old_bv.push(final(self).blocks_seq().last()@));
        }
        Ok(())
    }

    /// Walks the chain newest to oldest and reports the first violation:
    /// a block failing proof-of-work against the target for its number, a
    /// missing or extraneous predecessor link, or a link that does not
    /// match the predecessor's hash.
    #[verifier::rlimit(100)]
    pub fn validate(&self) -> (r: Result<(), Error>)
        ensures
            match r {
                Ok(()) => spec_validate(self.blocks_view()) is Ok,
                Err(e) => spec_validate(self.blocks_view()) == Err::<(), Seq<char>>(e@),
            },
    {
        let ghost bv = self.blocks_view();
        let n = self.blocks.len();
        if n == 0 {
            return Ok(());
        }
        let mut i: usize = n;
        while i > 0
            invariant
                1 <= i + 1 <= n + 1,
                i <= n,
                n == bv.len(),
                bv == self.blocks_view(),
                forall|j: int| i <= j < n ==> spec_check_block(bv, j) is Ok,
            decreases i,
        {
            let k = i - 1;
            let ghost bn = (k + 1) as nat;
            let b = self.blocks.get(k);
            let target = self.get_target(b.block_number);
            if !b.verify(&target) {
                let mut msg = "Block ".to_owned();
                let num = dec_string((k + 1) as u128);
                msg.append(num.as_str());
                msg.append(" has invalid hash");
                proof {
                    assert(msg@ =~= msg_block_n_invalid_hash(bn));
                    assert(spec_check_block(bv, k as int) == Err::<(), Seq<char>>(msg@));
                    if k as int + 1 <= n - 1 {
                        lemma_validate_from_skip(bv, n - 1, k as int);
                    }
                }
                return Err(msg);
            }
            let has_prev = match &b.prev_hash {
                Some(_) => true,
                None => false,
            };
            if k != 0 && !has_prev {
                let mut msg = "Block ".to_owned();
                let num = dec_string((k + 1) as u128);
                msg.append(num.as_str());
                msg.append(" doesn't have prev_hash");
                proof {
                    assert(msg@ =~= msg_block_no_prev_hash(bn));
                    assert(spec_check_block(bv, k as int) == Err::<(), Seq<char>>(msg@));
                    lemma_validate_from_skip(bv, n - 1, k as int);
                }
                return Err(msg);
            }
            if k == 0 && has_prev {
                let msg = "Genesis block shouldn't have prev_hash".to_owned();
                proof {
                    assert(spec_check_block(bv, k as int) == Err::<(), Seq<char>>(msg@));
                    if k as int + 1 <= n - 1 {
                        lemma_validate_from_skip(bv, n - 1, k as int);
                    }
                }
                return Err(msg);
            }
            if k + 1 < n {
                let newer = self.blocks.get(k + 1);
                let link_mismatch = match &newer.prev_hash {
                    None => false,
                    Some(p) => {
                        let bh = b.hash();
                        *p != bh
                    },
                };
                if link_mismatch {
                    let mut msg = "Block ".to_owned();
                    let num_newer = dec_string((k + 2) as u128);
                    msg.append(num_newer.as_str());
                    msg.append(" prev_hash doesn't match Block ");
                    let num = dec_string((k + 1) as u128);
                    msg.append(num.as_str());
                    msg.append(" hash");
                    proof {
                        assert(msg@ =~= msg_prev_hash_mismatch(bn));
                        assert(spec_check_block(bv, k as int) == Err::<(), Seq<char>>(msg@));
                        lemma_validate_from_skip(bv, n - 1, k as int);
                    }
                    return Err(msg);
                }
            }
            proof {
                assert(spec_check_block(bv, k as int) is Ok);
            }
            i = k;
        }
        proof {
            lemma_validate_from_skip(bv, n - 1, 0);
        }
        Ok(())
    }
}

// ------------------------------------------------------------------
// What only-successful appends build, and what holds of it.
// ------------------------------------------------------------------

/// The shape of a chain built by only-successful appends: blocks are
/// numbered by position, each beats the target for its number, the
/// genesis block carries no predecessor link, and every later block
/// links to its predecessor's hash.
pub open spec fn spec_chain_wf(blocks: Seq<BlockV>) -> bool {
    forall|i: int|
        0 <= i < blocks.len() ==> {
            &&& (#[trigger] blocks[i]).block_number == i as u128
            &&& spec_block_verify(blocks[i], spec_get_target(blocks, i as u128))
            &&& (i == 0 ==> blocks[i].prev_hash is None)
            &&& (i > 0 ==> blocks[i].prev_hash == Some(spec_block_hash(blocks[i - 1])))
        }
}

/// In a chain numbered by position, the target walk for `n` stops right
/// at position `n`.
proof fn lemma_stop_numbered(blocks: Seq<BlockV>, n: int)
    requires
        forall|i: int| 0 <= i < blocks.len() ==> (#[trigger] blocks[i]).block_number == i as u128,
        0 <= n <= blocks.len(),
        blocks.len() <= usize::MAX,
    ensures
        spec_stop_from(blocks, n as u128, 0) == n,
{
    lemma_stop_from(blocks, n as u128, 0);
    let s = spec_stop_from(blocks, n as u128, 0);
    if n < blocks.len() {
        assert(blocks[n].block_number == n as u128);
        if s < n {
            assert(blocks[s].block_number == s as u128);
        }
        if s > n {
            assert(blocks[n].block_number != n as u128);
        }
    } else {
        if s < n {
            assert(blocks[s].block_number == s as u128);
        }
    }
}

/// In a well-formed chain, every block's hash lies strictly below the
/// target computed for its block number.
pub proof fn lemma_chain_block_beats_target(blocks: Seq<BlockV>, n: int)
    requires
        spec_chain_wf(blocks),
        0 <= n < blocks.len(),
    ensures
        spec_block_hash_value(blocks[n]) < spec_get_target(blocks, n as u128),
{
}

proof fn lemma_validate_from_checks(blocks: Seq<BlockV>, hi: int, n: int)
    requires
        spec_validate_from(blocks, hi) is Ok,
        0 <= n <= hi,
    ensures
        spec_check_block(blocks, n) is Ok,
    decreases hi,
{
    if hi > n {
        lemma_validate_from_checks(blocks, hi - 1, n);
    }
}

/// In any chain the validator accepts, every block's hash lies strictly
/// below the target computed for that block's own number.
pub proof fn lemma_valid_chain_beats_target(blocks: Seq<BlockV>, n: int)
    requires
        spec_validate(blocks) is Ok,
        0 <= n < blocks.len(),
    ensures
        spec_block_hash_value(blocks[n]) < spec_get_target(blocks, blocks[n].block_number),
{
    lemma_validate_from_checks(blocks, blocks.len() - 1, n);
}

/// Between adjacent block numbers of a position-numbered chain, the
/// target never changes by more than the clamp factor of four in either
/// direction.
pub proof fn lemma_target_change_clamped(blocks: Seq<BlockV>, n: int)
    requires
        forall|i: int| 0 <= i < blocks.len() ==> (#[trigger] blocks[i]).block_number == i as u128,
        blocks.len() <= usize::MAX,
        0 <= n,
        n + 1 <= blocks.len(),
    ensures
        spec_get_target(blocks, (n + 1) as u128) <= 4 * spec_get_target(blocks, n as u128),
        spec_get_target(blocks, n as u128) / 4 <= spec_get_target(blocks, (n + 1) as u128),
{
    lemma_stop_numbered(blocks, n);
    lemma_stop_numbered(blocks, n + 1);
    let t = spec_tgt_after(blocks, n);
    assert(spec_get_target(blocks, n as u128) == t);
    assert(spec_get_target(blocks, (n + 1) as u128) == spec_tgt_after(blocks, n + 1));
    if blocks[n].block_number > 0 {
        crate::bignum::lemma_next_target_bounds(t, spec_prev_ts(blocks, n), blocks[n].timestamp);
    } else {
        assert(t / 4 <= t) by (nonlinear_arith);
        assert(t <= 4 * t) by (nonlinear_arith);
    }
}

/// A well-formed chain passes every check the validator makes.
#[verifier::rlimit(100)]
proof fn lemma_chain_wf_checks(blocks: Seq<BlockV>, i: int)
    requires
        spec_chain_wf(blocks),
        0 <= i < blocks.len(),
    ensures
        spec_check_block(blocks, i) is Ok,
{
    assert(blocks[i].block_number == i as u128);
    assert(spec_block_verify(blocks[i], spec_get_target(blocks, i as u128)));
    if i + 1 < blocks.len() {
        assert(blocks[i + 1].prev_hash == Some(spec_block_hash(blocks[i])));
        assert(blocks[i].hash == Some(spec_block_hash(blocks[i])));
    }
}

proof fn lemma_chain_wf_validate_from(blocks: Seq<BlockV>, i: int)
    requires
        spec_chain_wf(blocks),
        0 <= i < blocks.len(),
    ensures
        spec_validate_from(blocks, i) is Ok,
    decreases i,
{
    lemma_chain_wf_checks(blocks, i);
    if i > 0 {
        lemma_chain_wf_validate_from(blocks, i - 1);
    }
}

/// A chain produced by only-successful appends validates: the validator
/// returns no violation on a well-formed chain.
pub proof fn lemma_chain_wf_validates(blocks: Seq<BlockV>)
    requires
        spec_chain_wf(blocks),
    ensures
        spec_validate(blocks) is Ok,
{
    if blocks.len() > 0 {
        lemma_chain_wf_validate_from(blocks, blocks.len() - 1);
    }
}

/// Appending a block that beats the pre-append target, carries the next
/// block number, and links to the old tip keeps the chain well-formed;
/// a successful `append_block` establishes exactly these premises.
pub proof fn lemma_append_preserves_chain_wf(blocks: Seq<BlockV>, nb: BlockV)
    requires
        spec_chain_wf(blocks),
        blocks.len() < usize::MAX,
        nb.block_number == blocks.len() as u128,
        spec_block_verify(nb, spec_get_target(blocks, blocks.len() as u128)),
        blocks.len() == 0 ==> nb.prev_hash is None,
        blocks.len() > 0 ==> nb.prev_hash == Some(spec_block_hash(blocks.last())),
    ensures
        spec_chain_wf(blocks.push(nb)),
{
    let nbv = blocks.push(nb);
    let ln = blocks.len() as int;
    assert(forall|i: int| 0 <= i < ln ==> nbv[i] == blocks[i]);
    assert(forall|i: int| 0 <= i < nbv.len() ==> (#[trigger] nbv[i]).block_number == i as u128);
    assert forall|i: int| 0 <= i < nbv.len() implies {
        &&& (#[trigger] nbv[i]).block_number == i as u128
        &&& spec_block_verify(nbv[i], spec_get_target(nbv, i as u128))
        &&& (i == 0 ==> nbv[i].prev_hash is None)
        &&& (i > 0 ==> nbv[i].prev_hash == Some(spec_block_hash(nbv[i - 1])))
    } by {
        lemma_stop_numbered(nbv, i);
        lemma_tgt_after_prefix(nbv, blocks, i);
        lemma_stop_numbered(blocks, if i < ln {
            i
        } else {
            ln
        });
        if i < ln {
            assert(spec_block_verify(blocks[i], spec_get_target(blocks, i as u128)));
            assert(spec_get_target(nbv, i as u128) == spec_get_target(blocks, i as u128));
        } else {
            assert(spec_get_target(nbv, ln as u128) == spec_get_target(blocks, ln as u128));
        }
    }
}

/// A chain of no blocks at all is well-formed; `Blockchain::new` starts
/// there.
pub proof fn lemma_empty_chain_wf()
    ensures
        spec_chain_wf(Seq::<BlockV>::empty()),
{
}

} // verus!
