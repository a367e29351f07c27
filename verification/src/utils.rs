//! Account-id derivation, demonstration helpers for assembling and
//! appending blocks, and the compact difficulty format.

use vstd::prelude::*;
use vstd::string::StrSliceExecFns;
use vstd::string::StringExecFns;
use crate::traits::WorldState;
use crate::bignum::big_to_hex;
use crate::bignum::le_value;
use crate::bignum::spec_hex_nat;
use crate::crypto::Keypair;
use crate::crypto::digest;
use crate::crypto::generate_keypair_bytes;
use crate::crypto::hex_encode;
use crate::crypto::spec_digest;
use crate::crypto::spec_hex_char;
use crate::crypto::spec_hex_chars;
use crate::crypto::spec_public_of;
use crate::crypto::spec_signature_of;
use crate::text::hex_string;
use crate::types::AccountId;
use crate::types::Balance;
use crate::types::Block;
use crate::types::Blockchain;
use crate::types::Error;
use crate::types::Transaction;
use crate::types::TransactionData;
use crate::types::TransactionDataV;
use crate::types::TransactionV;
use crate::types::AccountType;
use crate::types::account::clone_bytes;
use crate::types::AccountV;
use crate::types::blockchain::spec_apply_txs;
use crate::types::transaction::spec_execute;
use crate::types::transaction::spec_tx_sig_msg;
use crate::types::block::spec_block_hash;
use crate::types::block::spec_block_verify;
use crate::types::blockchain::spec_get_target;
use crate::types::miner::mine;

verus! {

/// A fresh keypair together with the account id derived from it: the hex
/// digest of the public key.
pub fn generate_account_id() -> (r: (AccountId, Keypair))
    ensures
        r.1.wf(),
        r.0@ == spec_hex_chars(spec_digest(spec_public_of(r.1.secret@))),
{
    let (secret, public) = generate_keypair_bytes();
    let d = digest(&public);
    let account_id = hex_encode(&d);
    (account_id, Keypair { secret, public })
}

/// Assembles a block of the given transactions on the current tip, mines
/// it, and hands it to the chain. On success the chain grows by exactly
/// that block, numbered past the old tip, linked to the old tip's hash,
/// beating the old latest target; on any error the chain and the world
/// state are untouched.
#[verifier::rlimit(100)]
pub fn append_block_with_tx(bc: &mut Blockchain, nonce: u128, transactions: Vec<Transaction>) -> (r:
    Result<(), Error>)
    requires
        old(bc).blocks_view().len() > 0 ==> old(bc).blocks_view().last().block_number
            < u128::MAX,
    ensures
        match r {
            Ok(()) => {
                &&& final(bc).blocks_view().len() == old(bc).blocks_view().len() + 1
                &&& final(bc).blocks_view().take(old(bc).blocks_view().len() as int) == old(
                    bc,
                ).blocks_view()
                &&& final(bc).blocks_view().last().transactions == transactions@.map(
                    |i: int, t: Transaction| t@,
                )
                &&& final(bc).blocks_view().last().block_number == old(
                    bc,
                ).blocks_view().len() as u128
                &&& final(bc).blocks_view().last().prev_hash == (if old(bc).blocks_view().len()
                    == 0 {
                    None
                } else {
                    Some(spec_block_hash(old(bc).blocks_view().last()))
                })
                &&& spec_block_verify(
                    final(bc).blocks_view().last(),
                    spec_get_target(old(bc).blocks_view(), old(bc).blocks_view().len() as u128),
                )
                &&& spec_apply_txs(
                    old(bc).state_map(),
                    transactions@.map(|i: int, t: Transaction| t@),
                    old(bc).blocks_view().len() == 0,
                ) == Ok::<Map<Seq<char>, AccountV>, Seq<char>>(final(bc).state_map())
            },
            Err(_) => {
                &&& final(bc).blocks_view() == old(bc).blocks_view()
                &&& final(bc).state_map() == old(bc).state_map()
            },
        },
        transactions@.len() == 0 ==> r is Err,
        spec_apply_txs(
            old(bc).state_map(),
            transactions@.map(|i: int, t: Transaction| t@),
            old(bc).blocks_view().len() == 0,
        ) is Err ==> r is Err,
{
    let ghost txs0 = transactions@.map(|i: int, t: Transaction| t@);
    let ghost old_bv = bc.blocks_view();
    let ghost expected_prev: Option<Seq<char>> = if old_bv.len() == 0 {
        None
    } else {
        Some(spec_block_hash(old_bv.last()))
    };
    let last_hash = bc.get_last_block_hash();
    let last_number = bc.get_last_block_number();
    let mut block = Block::new(last_hash, last_number);
    proof {
        assert(block@.prev_hash == expected_prev);
    }
    block.set_nonce(nonce);
    let mut rest = transactions;
    let ghost mut consumed: int = 0;
    while rest.len() > 0
        invariant
            0 <= consumed <= txs0.len(),
            rest@.len() == txs0.len() - consumed,
            forall|j: int| 0 <= j < rest@.len() ==> rest@[j]@ == txs0[consumed + j],
            block@.transactions == txs0.take(consumed),
            block@.prev_hash == expected_prev,
            old_bv == old(bc).blocks_view(),
            expected_prev == (if old(bc).blocks_view().len() == 0 {
                None::<Seq<char>>
            } else {
                Some(spec_block_hash(old(bc).blocks_view().last()))
            }),
            block@.hash == Some(spec_block_hash(block@)),
        decreases rest@.len(),
    {
        let tx = rest.remove(0);
        block.add_transaction(tx);
        proof {
            consumed = consumed + 1;
            assert(block@.transactions =~= txs0.take(consumed));
        }
    }
    proof {
        assert(txs0.take(txs0.len() as int) =~= txs0);
    }
    let target = bc.get_latest_target();
    mine(&mut block, &target);
    bc.append_block(block)
}

/// The view of a fresh create-account transaction as the helpers build
/// it: zero nonce and timestamp, no sender, no signature.
pub open spec fn spec_create_account_tx(account_id: Seq<char>, public_key: Seq<u8>) -> TransactionV {
    TransactionV {
        nonce: 0,
        timestamp: 0,
        from: None,
        data: TransactionDataV::CreateAccount { account_id, public_key },
        signature: None,
    }
}

/// The view of a fresh mint transaction as the helpers build it.
pub open spec fn spec_mint_tx(to: Seq<char>, amount: Balance) -> TransactionV {
    TransactionV {
        nonce: 0,
        timestamp: 0,
        from: None,
        data: TransactionDataV::MintInitialSupply { to, amount },
        signature: None,
    }
}

/// The view of a fresh transfer signed with the given secret over its
/// own hash, as the helpers build it.
pub open spec fn spec_signed_transfer_tx(
    from: Seq<char>,
    to: Seq<char>,
    amount: Balance,
    secret: Seq<u8>,
) -> TransactionV {
    let unsigned = TransactionV {
        nonce: 0,
        timestamp: 0,
        from: Some(from),
        data: TransactionDataV::Transfer { to, amount },
        signature: None,
    };
    TransactionV { signature: Some(spec_signature_of(secret, spec_tx_sig_msg(unsigned))), ..unsigned }
}

/// Mines a block holding one fresh create-account transaction onto the
/// chain. The helper hands back a copy of the block it assembled. If the
/// chain grew, the new block holds exactly the one create-account
/// transaction for the fresh keypair, and the world state gained exactly
/// that zero-balance account; otherwise both are untouched.
#[verifier::rlimit(100)]
pub fn append_block(bc: &mut Blockchain) -> (r: Block)
    requires
        old(bc).blocks_view().len() > 0 ==> old(bc).blocks_view().last().block_number
            < u128::MAX,
    ensures
        old(bc).blocks_view().len() <= final(bc).blocks_view().len() <= old(bc).blocks_view().len()
            + 1,
        final(bc).blocks_view().take(old(bc).blocks_view().len() as int) == old(bc).blocks_view(),
        final(bc).blocks_view().len() == old(bc).blocks_view().len() ==> final(bc).state_map()
            == old(bc).state_map(),
        final(bc).blocks_view().len() == old(bc).blocks_view().len() + 1 ==> (exists|pk: Seq<u8>|
            {
                &&& final(bc).blocks_view().last().transactions == seq![
                    #[trigger] spec_create_account_tx(spec_hex_chars(spec_digest(pk)), pk),
                ]
                &&& !old(bc).state_map().contains_key(spec_hex_chars(spec_digest(pk)))
                &&& final(bc).state_map() == old(bc).state_map().insert(
                    spec_hex_chars(spec_digest(pk)),
                    (AccountV {
                        account_type: AccountType::User,
                        balance: 0,
                        public_key: pk,
                    }),
                )
            }),
{
    let (account, keypair) = generate_account_id();
    let ghost pk0 = keypair.public@;
    let ghost aid0 = account@;
    let tx_create_account = Transaction::new(
        TransactionData::CreateAccount { account_id: account, public_key: keypair.public },
        None,
    );
    let block_copy = {
        let mut block = Block::new(bc.get_last_block_hash(), bc.get_last_block_number());
        block.add_transaction(tx_create_account.clone());
        let target = bc.get_latest_target();
        mine(&mut block, &target);
        block
    };
    let mut txs: Vec<Transaction> = Vec::new();
    txs.push(tx_create_account);
    let ghost txv = spec_create_account_tx(aid0, pk0);
    proof {
        assert(txs@.map(|i: int, t: Transaction| t@) =~= seq![txv]);
    }
    let res = append_block_with_tx(bc, 0, txs);
    proof {
        if res is Ok {
            assert(bc.blocks_view().take(old(bc).blocks_view().len() as int) == old(
                bc,
            ).blocks_view());
            let g = old(bc).blocks_view().len() == 0;
            let m0 = old(bc).state_map();
            assert(seq![txv][0] == txv);
            assert(seq![txv].drop_first() =~= Seq::<TransactionV>::empty());
            match spec_execute(txv, m0, g) {
                Ok(m2) => {
                    assert(spec_apply_txs(m2, Seq::<TransactionV>::empty(), g) == Ok::<
                        Map<Seq<char>, AccountV>,
                        Seq<char>,
                    >(m2));
                    assert(bc.state_map() == m2);
                },
                Err(_) => {
                    assert(false);
                },
            }
            assert(aid0 == spec_hex_chars(spec_digest(pk0)));
            assert(!m0.contains_key(aid0));
            assert(bc.state_map() == m0.insert(
                aid0,
                (AccountV { account_type: AccountType::User, balance: 0, public_key: pk0 }),
            ));
            assert(bc.blocks_view().last().transactions == seq![
                spec_create_account_tx(spec_hex_chars(spec_digest(pk0)), pk0),
            ]);
        } else {
            assert(bc.blocks_view().take(old(bc).blocks_view().len() as int) =~= old(
                bc,
            ).blocks_view());
        }
    }
    block_copy
}

/// The four transactions this helper assembles: create both accounts,
/// mint to the first, then the signed transfer.
pub open spec fn spec_transfer_block_txs(
    account_1: Seq<char>,
    account_2: Seq<char>,
    from: Seq<char>,
    to: Seq<char>,
    pk1: Seq<u8>,
    pk2: Seq<u8>,
    amount_to_mint: Balance,
    amount_to_send: Balance,
    secret_1: Seq<u8>,
) -> Seq<TransactionV> {
    seq![
        spec_create_account_tx(account_1, pk1),
        spec_create_account_tx(account_2, pk2),
        spec_mint_tx(account_1, amount_to_mint),
        spec_signed_transfer_tx(from, to, amount_to_send, secret_1),
    ]
}

/// Creates two accounts in a genesis block, mints the initial supply to
/// the first, and sends a signed transfer, all in one block. On success
/// the world state is exactly the four transactions applied in order; on
/// any error the chain and the world state are untouched.
#[verifier::rlimit(100)]
pub fn create_accounts_and_transfer(
    bc: &mut Blockchain,
    account_1: AccountId,
    account_2: AccountId,
    from: AccountId,
    to: AccountId,
    amount_to_mint: Balance,
    amount_to_send: Balance,
    account_1_keypair: &Keypair,
    account_2_keypair: &Keypair,
) -> (r: Result<(), Error>)
    requires
        account_1_keypair.secret@.len() == 32,
        old(bc).blocks_view().len() > 0 ==> old(bc).blocks_view().last().block_number
            < u128::MAX,
    ensures
        match r {
            Ok(()) => {
                &&& final(bc).blocks_view().len() == old(bc).blocks_view().len() + 1
                &&& final(bc).blocks_view().take(old(bc).blocks_view().len() as int) == old(
                    bc,
                ).blocks_view()
                &&& final(bc).blocks_view().last().transactions == spec_transfer_block_txs(
                    account_1@,
                    account_2@,
                    from@,
                    to@,
                    account_1_keypair.public@,
                    account_2_keypair.public@,
                    amount_to_mint,
                    amount_to_send,
                    account_1_keypair.secret@,
                )
                &&& spec_apply_txs(
                    old(bc).state_map(),
                    spec_transfer_block_txs(
                        account_1@,
                        account_2@,
                        from@,
                        to@,
                        account_1_keypair.public@,
                        account_2_keypair.public@,
                        amount_to_mint,
                        amount_to_send,
                        account_1_keypair.secret@,
                    ),
                    old(bc).blocks_view().len() == 0,
                ) == Ok::<Map<Seq<char>, AccountV>, Seq<char>>(final(bc).state_map())
            },
            Err(_) => final(bc).blocks_view() == old(bc).blocks_view() && final(bc).state_map()
                == old(bc).state_map(),
        },
        spec_apply_txs(
            old(bc).state_map(),
            spec_transfer_block_txs(
                account_1@,
                account_2@,
                from@,
                to@,
                account_1_keypair.public@,
                account_2_keypair.public@,
                amount_to_mint,
                amount_to_send,
                account_1_keypair.secret@,
            ),
            old(bc).blocks_view().len() == 0,
        ) is Err ==> r is Err,
{
    let ghost expected = spec_transfer_block_txs(
        account_1@,
        account_2@,
        from@,
        to@,
        account_1_keypair.public@,
        account_2_keypair.public@,
        amount_to_mint,
        amount_to_send,
        account_1_keypair.secret@,
    );
    let mut transfer_tx = Transaction::new(
        TransactionData::Transfer { to, amount: amount_to_send },
        Some(from),
    );
    transfer_tx.sign(account_1_keypair);
    proof {
        assert(transfer_tx@ == spec_signed_transfer_tx(
            from@,
            to@,
            amount_to_send,
            account_1_keypair.secret@,
        ));
    }
    let mut txs: Vec<Transaction> = Vec::new();
    txs.push(
        Transaction::new(
            TransactionData::CreateAccount {
                account_id: account_1.clone(),
                public_key: clone_bytes(&account_1_keypair.public),
            },
            None,
        ),
    );
    txs.push(
        Transaction::new(
            TransactionData::CreateAccount {
                account_id: account_2.clone(),
                public_key: clone_bytes(&account_2_keypair.public),
            },
            None,
        ),
    );
    txs.push(
        Transaction::new(
            TransactionData::MintInitialSupply { to: account_1.clone(), amount: amount_to_mint },
            None,
        ),
    );
    txs.push(transfer_tx);
    proof {
        assert(txs@.map(|i: int, t: Transaction| t@) =~= expected);
    }
    append_block_with_tx(bc, 1, txs)
}

/// The compact rendering of a target: `0x`, the half-byte length of the
/// even-padded hex text, and that text's first six digits.
pub open spec fn spec_compact(v: nat) -> Seq<char> {
    let h0 = spec_hex_nat(v);
    let h = if h0.len() % 2 != 0 {
        seq!['0'] + h0
    } else {
        h0
    };
    "0x"@ + spec_hex_nat(h.len() / 2) + h.take(6)
}

/// Hex text is made of ASCII characters.
proof fn lemma_hex_nat_ascii(v: nat)
    ensures
        vstd::utf8::is_ascii_chars(spec_hex_nat(v)),
    decreases v,
{
    if v < 16 {
        assert(forall|i: int|
            0 <= i < spec_hex_nat(v).len() ==> '\0' <= #[trigger] spec_hex_nat(v)[i]
                <= '\u{7f}');
    } else {
        lemma_hex_nat_ascii(v / 16);
        assert(forall|i: int|
            0 <= i < spec_hex_nat(v).len() ==> '\0' <= #[trigger] spec_hex_nat(v)[i]
                <= '\u{7f}') by {
            assert(forall|i: int|
                0 <= i < spec_hex_nat(v / 16).len() ==> '\0' <= #[trigger] spec_hex_nat(
                    v / 16,
                )[i] <= '\u{7f}');
        }
    }
}

/// A value of five hex digits' magnitude has at least five hex digits.
proof fn lemma_hex_nat_len(v: nat)
    requires
        v >= 0x10000,
    ensures
        spec_hex_nat(v).len() >= 5,
{
    assert(spec_hex_nat(v) == spec_hex_nat(v / 16) + seq![spec_hex_char(v as int % 16)]);
    assert(v / 16 >= 0x1000);
    assert(spec_hex_nat(v / 16) == spec_hex_nat(v / 16 / 16) + seq![
        spec_hex_char(v as int / 16 % 16),
    ]);
    assert(v / 16 / 16 >= 0x100);
    let v2 = v / 16 / 16;
    assert(spec_hex_nat(v2) == spec_hex_nat(v2 / 16) + seq![spec_hex_char(v2 as int % 16)]);
    assert(v2 / 16 >= 0x10);
    let v3 = v2 / 16;
    assert(spec_hex_nat(v3) == spec_hex_nat(v3 / 16) + seq![spec_hex_char(v3 as int % 16)]);
    assert(spec_hex_nat(v3 / 16).len() >= 1);
}

/// Renders a target, given as little-endian value bytes, in the compact
/// difficulty format. The value must fill at least five hex digits.
pub fn to_compact_format(target: Vec<u8>) -> (r: String)
    requires
        le_value(target@) >= 0x10000,
    ensures
        r@ == spec_compact(le_value(target@)),
{
    let ghost v = le_value(target@);
    let hex_target = big_to_hex(&target);
    proof {
        lemma_hex_nat_len(v);
        lemma_hex_nat_ascii(v);
        reveal_strlit("0");
    }
    let len = hex_target.as_str().unicode_len();
    let (padded, half): (String, usize) = if len % 2 != 0 {
        let p = "0".to_owned().concat(hex_target.as_str());
        (p, len / 2 + 1)
    } else {
        (hex_target, len / 2)
    };
    proof {
        let h = if spec_hex_nat(v).len() % 2 != 0 {
            seq!['0'] + spec_hex_nat(v)
        } else {
            spec_hex_nat(v)
        };
        assert(padded@ =~= h);
        assert(half == h.len() / 2);
        assert(vstd::utf8::is_ascii_chars(padded@)) by {
            reveal_strlit("0");
        }
    }
    let half_text = hex_string(half);
    let head = padded.as_str().substring_ascii(0, 6);
    let r = "0x".to_owned().concat(half_text.as_str()).concat(head);
    proof {
        assert(r@ =~= spec_compact(v));
    }
    r
}

} // verus!
