use vstd::prelude::*;
use crate::bignum::be_value;
use crate::bignum::big_lt;
use crate::bignum::le_value;
use crate::bignum::lemma_be_is_le_of_reverse;
use crate::bignum::rev_bytes;
use crate::crypto::digest;
use crate::crypto::hex_encode;
use crate::crypto::spec_digest;
use crate::crypto::spec_hex_chars;
use crate::encode::push_bytes;
use crate::encode::push_opt_str_enc;
use crate::encode::push_u128_be;
use crate::encode::spec_opt_str_enc;
use crate::encode::spec_u128_be;
use crate::traits::Hashable;
use crate::types::Timestamp;
use crate::types::Transaction;
use crate::types::TransactionV;
use crate::types::transaction::opt_str_view;
use crate::types::transaction::spec_tx_digest;
use crate::types::transaction::tx_preimage;

verus! {

/// A block: an ordered transaction list under a proof-of-work nonce,
/// linked to its predecessor by hash. The stored `hash` field caches the
/// digest of the current fields; `verify` recomputes it.
#[derive(Debug, Clone)]
pub struct Block {
    pub nonce: u128,
    pub block_number: u128,
    pub timestamp: Timestamp,
    pub hash: Option<crate::types::Hash>,
    pub prev_hash: Option<crate::types::Hash>,
    pub transactions: Vec<Transaction>,
}

/// The mathematical shadow of a block.
pub struct BlockV {
    pub nonce: u128,
    pub block_number: u128,
    pub timestamp: Timestamp,
    pub hash: Option<Seq<char>>,
    pub prev_hash: Option<Seq<char>>,
    pub transactions: Seq<TransactionV>,
}

impl View for Block {
    type V = BlockV;

    open spec fn view(&self) -> BlockV {
        BlockV {
            nonce: self.nonce,
            block_number: self.block_number,
            timestamp: self.timestamp,
            hash: opt_str_view(self.hash),
            prev_hash: opt_str_view(self.prev_hash),
            transactions: self.transactions@.map(|i: int, t: Transaction| t@),
        }
    }
}

/// The concatenated digest bytes of a list of transactions, in order.
pub open spec fn spec_tx_digests_flat(ts: Seq<TransactionV>) -> Seq<u8>
    decreases ts.len(),
{
    if ts.len() == 0 {
        Seq::empty()
    } else {
        spec_tx_digest(ts[0]) + spec_tx_digests_flat(ts.drop_first())
    }
}

/// Appending one transaction appends its digest bytes.
pub proof fn lemma_tx_digests_flat_push(ts: Seq<TransactionV>, t: TransactionV)
    ensures
        spec_tx_digests_flat(ts.push(t)) == spec_tx_digests_flat(ts) + spec_tx_digest(t),
    decreases ts.len(),
{
    if ts.len() == 0 {
        assert(ts.push(t)[0] == t);
        assert(ts.push(t).drop_first() =~= Seq::<TransactionV>::empty());
        assert(spec_tx_digests_flat(Seq::<TransactionV>::empty()) == Seq::<u8>::empty());
        assert(spec_tx_digests_flat(ts.push(t)) == spec_tx_digest(t) + Seq::<u8>::empty());
        assert(spec_tx_digests_flat(ts.push(t)) =~= spec_tx_digests_flat(ts) + spec_tx_digest(t));
    } else {
        assert(ts.push(t).drop_first() =~= ts.drop_first().push(t));
        lemma_tx_digests_flat_push(ts.drop_first(), t);
        assert(spec_tx_digests_flat(ts.push(t)) =~= spec_tx_digests_flat(ts) + spec_tx_digest(t));
    }
}

/// The canonical bytes a block is hashed over: its header fields, then
/// the digests of its transactions in insertion order. The stored hash
/// does not participate.
pub open spec fn spec_block_preimage(b: BlockV) -> Seq<u8> {
    spec_u128_be(b.nonce) + spec_u128_be(b.timestamp) + spec_u128_be(b.block_number)
        + spec_opt_str_enc(b.prev_hash) + spec_tx_digests_flat(b.transactions)
}

/// A block's digest bytes.
pub open spec fn spec_block_digest(b: BlockV) -> Seq<u8> {
    spec_digest(spec_block_preimage(b))
}

/// A block's hash: the lowercase hex text of its digest.
pub open spec fn spec_block_hash(b: BlockV) -> Seq<char> {
    spec_hex_chars(spec_block_digest(b))
}

/// A block's hash read as a number, big-endian.
pub open spec fn spec_block_hash_value(b: BlockV) -> nat {
    be_value(spec_block_digest(b))
}

/// Proof-of-work acceptance: the stored hash matches the recomputed one,
/// and the hash value lies strictly below the target.
pub open spec fn spec_block_verify(b: BlockV, target: nat) -> bool {
    b.hash == Some(spec_block_hash(b)) && spec_block_hash_value(b) < target
}

/// The canonical hashed bytes separate a block's header fields: blocks
/// whose nonce, timestamp or block number differ are hashed over
/// different bytes. Their hashes then differ whenever the digest does
/// not collide.
pub proof fn lemma_block_preimage_separates_header(b1: BlockV, b2: BlockV)
    requires
        spec_block_preimage(b1) == spec_block_preimage(b2),
    ensures
        b1.nonce == b2.nonce,
        b1.timestamp == b2.timestamp,
        b1.block_number == b2.block_number,
{
    let p1 = spec_block_preimage(b1);
    let p2 = spec_block_preimage(b2);
    assert(spec_u128_be(b1.nonce) =~= p1.subrange(0, 16));
    assert(spec_u128_be(b2.nonce) =~= p2.subrange(0, 16));
    crate::encode::lemma_u128_be_injective(b1.nonce, b2.nonce);
    assert(spec_u128_be(b1.timestamp) =~= p1.subrange(16, 32));
    assert(spec_u128_be(b2.timestamp) =~= p2.subrange(16, 32));
    crate::encode::lemma_u128_be_injective(b1.timestamp, b2.timestamp);
    assert(spec_u128_be(b1.block_number) =~= p1.subrange(32, 48));
    assert(spec_u128_be(b2.block_number) =~= p2.subrange(32, 48));
    crate::encode::lemma_u128_be_injective(b1.block_number, b2.block_number);
}

/// The same block under another nonce.
pub open spec fn spec_with_nonce(b: BlockV, n: u128) -> BlockV {
    BlockV { nonce: n, ..b }
}

/// The stored hash never feeds the digest: blocks equal in every other
/// field are hashed over the same bytes.
pub proof fn lemma_hash_ignores_stored(b1: BlockV, b2: BlockV)
    requires
        b1.nonce == b2.nonce,
        b1.timestamp == b2.timestamp,
        b1.block_number == b2.block_number,
        b1.prev_hash == b2.prev_hash,
        b1.transactions == b2.transactions,
    ensures
        spec_block_preimage(b1) == spec_block_preimage(b2),
        spec_block_hash(b1) == spec_block_hash(b2),
        spec_block_hash_value(b1) == spec_block_hash_value(b2),
{
}

/// Builds the canonical hashed bytes of a block.
pub(crate) fn block_preimage(b: &Block) -> (r: Vec<u8>)
    ensures
        r@ == spec_block_preimage(b@),
{
    let mut out: Vec<u8> = Vec::new();
    push_u128_be(&mut out, b.nonce);
    push_u128_be(&mut out, b.timestamp);
    push_u128_be(&mut out, b.block_number);
    push_opt_str_enc(&mut out, &b.prev_hash);
    let ghost header = out@;
    let mut i: usize = 0;
    while i < b.transactions.len()
        invariant
            i <= b.transactions@.len(),
            out@ == header + spec_tx_digests_flat(
                b.transactions@.map(|k: int, t: Transaction| t@).take(i as int),
            ),
        decreases b.transactions@.len() - i,
    {
        let ghost tvs = b.transactions@.map(|k: int, t: Transaction| t@);
        let pre = tx_preimage(&b.transactions[i]);
        let d = digest(&pre);
        push_bytes(&mut out, &d);
        proof {
            assert(tvs.take(i + 1) =~= tvs.take(i as int).push(tvs[i as int]));
            lemma_tx_digests_flat_push(tvs.take(i as int), tvs[i as int]);
        }
        i = i + 1;
    }
    proof {
        let tvs = b.transactions@.map(|k: int, t: Transaction| t@);
        assert(tvs.take(tvs.len() as int) =~= tvs);
    }
    out
}

/// Computes a block's digest bytes.
pub(crate) fn block_digest_bytes(b: &Block) -> (r: Vec<u8>)
    ensures
        r@ == spec_block_digest(b@),
        r@.len() == 32,
{
    let pre = block_preimage(b);
    digest(&pre)
}

impl Hashable for Block {
    open spec fn hash_spec(&self) -> Seq<char> {
        spec_block_hash(self@)
    }

    fn hash(&self) -> (r: crate::types::Hash) {
        let d = block_digest_bytes(self);
        hex_encode(&d)
    }
}

impl Block {
    /// A fresh block chained after the given predecessor: block number
    /// zero with no predecessor, one past it otherwise. The stored hash
    /// covers the empty transaction list.
    pub fn new(prev_hash: Option<crate::types::Hash>, prev_block_number: Option<u128>) -> (r: Block)
        requires
            prev_block_number matches Some(n) ==> n < u128::MAX,
        ensures
            r@.nonce == 0,
            r@.timestamp == 0,
            r@.block_number == (match prev_block_number {
                None => 0u128,
                Some(n) => (n + 1) as u128,
            }),
            r@.prev_hash == opt_str_view(prev_hash),
            r@.transactions =~= Seq::<TransactionV>::empty(),
            r@.hash == Some(spec_block_hash(r@)),
    {
        let mut block = Block {
            nonce: 0,
            block_number: match prev_block_number {
                None => 0,
                Some(n) => n + 1,
            },
            timestamp: 0,
            hash: None,
            prev_hash,
            transactions: Vec::new(),
        };
        block.update_hash();
        block
    }

    /// Sets the nonce and refreshes the stored hash.
    pub fn set_nonce(&mut self, nonce: u128)
        ensures
            final(self)@ == (BlockV {
                nonce,
                hash: Some(
                    spec_block_hash((BlockV { nonce, hash: old(self)@.hash, ..old(self)@ })),
                ),
                ..old(self)@
            }),
    {
        self.nonce = nonce;
        self.update_hash();
    }

    /// Appends a transaction and refreshes the stored hash.
    pub fn add_transaction(&mut self, transaction: Transaction)
        ensures
            final(self)@ == (BlockV {
                transactions: old(self)@.transactions.push(transaction@),
                hash: Some(
                    spec_block_hash(
                        (BlockV {
                            transactions: old(self)@.transactions.push(transaction@),
                            hash: old(self)@.hash,
                            ..old(self)@
                        }),
                    ),
                ),
                ..old(self)@
            }),
    {
        self.transactions.push(transaction);
        proof {
            assert(self.transactions@.map(|i: int, t: Transaction| t@) =~= old(
                self,
            ).transactions@.map(|i: int, t: Transaction| t@).push(transaction@));
        }
        self.update_hash();
    }

    /// Whether the block passes proof-of-work against the target, given
    /// as little-endian value bytes.
    pub fn verify(&self, target: &Vec<u8>) -> (r: bool)
        ensures
            r == spec_block_verify(self@, le_value(target@)),
    {
        let d = block_digest_bytes(self);
        let h = hex_encode(&d);
        let stored_ok = match &self.hash {
            None => false,
            Some(stored) => *stored == h,
        };
        if !stored_ok {
            return false;
        }
        let rev = rev_bytes(&d);
        proof {
            lemma_be_is_le_of_reverse(d@);
        }
        big_lt(&rev, target)
    }

    /// Recomputes the stored hash from the current fields.
    pub(crate) fn update_hash(&mut self)
        ensures
            final(self)@ == (BlockV {
                hash: Some(spec_block_hash(old(self)@)),
                ..old(self)@
            }),
            final(self)@.hash == Some(spec_block_hash(final(self)@)),
    {
        let h = self.hash();
        self.hash = Some(h);
        proof {
            let a = old(self)@;
            let b = final(self)@;
            assert(spec_block_preimage(b) == spec_block_preimage(a));
        }
    }
}

} // verus!
