use vstd::prelude::*;
use std::time::SystemTime;
use std::time::UNIX_EPOCH;
use crate::bignum::le_value;
use crate::bignum::lemma_be_is_le_of_reverse;
use crate::bignum::big_lt;
use crate::bignum::rev_bytes;
use crate::types::Block;
use crate::types::block::BlockV;
use crate::types::block::block_digest_bytes;
use crate::types::block::lemma_hash_ignores_stored;
use crate::types::block::spec_block_hash;
use crate::types::block::spec_with_nonce;
use crate::types::block::spec_block_hash_value;

verus! {

/// Relies on std::time::SystemTime::now and duration_since the Unix
/// epoch: the wall clock in milliseconds; a clock reading before the
/// epoch counts as zero. Nothing is promised of the value.
#[verifier::external_body]
fn now_millis() -> (r: u128)
    ensures
        r >= 0,
{
    match SystemTime::now().duration_since(UNIX_EPOCH) {
        Ok(d) => d.as_millis(),
        Err(_) => 0,
    }
}

/// Stamps the block with the current wall-clock time, then scans nonces
/// from zero until the block's hash falls below the target. The
/// transaction list, predecessor link and block number are left as they
/// were; the search stops early only on success, so if any nonce in
/// range beats the target at the stamped header, the returned block
/// beats it.
pub fn mine(block: &mut Block, target: &Vec<u8>)
    ensures
        final(block)@.block_number == old(block)@.block_number,
        final(block)@.prev_hash == old(block)@.prev_hash,
        final(block)@.transactions == old(block)@.transactions,
        final(block)@.hash == Some(spec_block_hash(final(block)@)),
        spec_block_hash_value(final(block)@) < le_value(target@) || final(block)@.nonce == u128::MAX
            - 1,
        (exists|n: u128|
            n < u128::MAX && #[trigger] spec_block_hash_value(spec_with_nonce(final(block)@, n))
                < le_value(target@)) ==> spec_block_hash_value(final(block)@) < le_value(target@),
{
    block.timestamp = now_millis();
    let mut nonce: u128 = 0;
    loop
        invariant_except_break
            nonce < u128::MAX,
            block@.block_number == old(block)@.block_number,
            block@.prev_hash == old(block)@.prev_hash,
            block@.transactions == old(block)@.transactions,
            forall|n: u128|
                n < nonce ==> #[trigger] spec_block_hash_value(spec_with_nonce(block@, n))
                    >= le_value(target@),
        ensures
            block@.block_number == old(block)@.block_number,
            block@.prev_hash == old(block)@.prev_hash,
            block@.transactions == old(block)@.transactions,
            block@.hash == Some(spec_block_hash(block@)),
            spec_block_hash_value(block@) < le_value(target@) || block@.nonce == u128::MAX - 1,
            spec_block_hash_value(block@) < le_value(target@) || (forall|n: u128|
                n < u128::MAX ==> #[trigger] spec_block_hash_value(spec_with_nonce(block@, n))
                    >= le_value(target@)),
        decreases u128::MAX - nonce,
    {
        let ghost pre = block@;
        block.set_nonce(nonce);
        let d = block_digest_bytes(block);
        let rev = rev_bytes(&d);
        proof {
            lemma_be_is_le_of_reverse(d@);
        }
        if big_lt(&rev, target) {
            break ;
        }
        proof {
            assert(spec_block_hash_value(block@) >= le_value(target@));
            assert forall|n: u128| n < nonce + 1 implies #[trigger] spec_block_hash_value(
                spec_with_nonce(block@, n),
            ) >= le_value(target@) by {
                if n < nonce {
                    lemma_hash_ignores_stored(
                        spec_with_nonce(block@, n),
                        spec_with_nonce(pre, n),
                    );
                } else {
                    lemma_hash_ignores_stored(spec_with_nonce(block@, n), block@);
                }
            }
        }
        if nonce >= u128::MAX - 1 {
            proof {
                assert forall|n: u128| n < u128::MAX implies #[trigger] spec_block_hash_value(
                    spec_with_nonce(block@, n),
                ) >= le_value(target@) by {
                    assert(n < nonce + 1);
                }
            }
            break ;
        }
        nonce = nonce + 1;
    }
    proof {
        if spec_block_hash_value(block@) >= le_value(target@) {
            assert forall|n: u128|
                n < u128::MAX && spec_block_hash_value(spec_with_nonce(block@, n)) < le_value(
                    target@,
                ) implies false by {
                assert(spec_block_hash_value(spec_with_nonce(block@, n)) >= le_value(target@));
            }
        }
    }
}

} // verus!
