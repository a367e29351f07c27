use blockchain_workshop::traits::Hashable;
use blockchain_workshop::types::mine;
use blockchain_workshop::types::Block;
use blockchain_workshop::types::Transaction;
use blockchain_workshop::types::TransactionData;
use blockchain_workshop::utils;
use num::bigint::BigUint;

#[test]
fn test_creation() {
    let mut block = Block::new(None, None);

    let (account_id, keypair) = utils::generate_account_id();

    let tx = Transaction::new(
        TransactionData::CreateAccount {
            account_id,
            public_key: keypair.public.clone(),
        },
        None,
    );
    block.set_nonce(1);
    block.add_transaction(tx);

    println!("{:?}", block);
}

#[test]
fn test_hash() {
    let mut block = Block::new(None, None);

    let (account_alice, keypair_alice) = utils::generate_account_id();

    let tx = Transaction::new(
        TransactionData::CreateAccount {
            account_id: account_alice,
            public_key: keypair_alice.public.clone(),
        },
        None,
    );

    block.set_nonce(1);

    let hash1 = block.hash();

    block.add_transaction(tx);
    block.set_nonce(1);
    let hash2 = block.hash();

    assert_ne!(hash1, hash2);
}

#[test]
fn test_mine() {
    let mut block = Block::new(None, None);

    let (account_alice, keypair_alice) = utils::generate_account_id();

    let _tx = Transaction::new(
        TransactionData::CreateAccount {
            account_id: account_alice,
            public_key: keypair_alice.public.clone(),
        },
        None,
    );

    let target = BigUint::from(5u32) * BigUint::from(10u32).pow(73);
    let target_bytes = target.to_bytes_le();

    block.add_transaction(_tx);

    mine(&mut block, &target_bytes);

    assert!(BigUint::parse_bytes(block.hash().as_bytes(), 16).unwrap() < target);
}

#[test]
fn test_hash_reorder() {
    // Reordering the transactions of a block changes its hash.
    let (account_a, keypair_a) = utils::generate_account_id();
    let (account_b, keypair_b) = utils::generate_account_id();

    let tx_a = Transaction::new(
        TransactionData::CreateAccount {
            account_id: account_a,
            public_key: keypair_a.public.clone(),
        },
        None,
    );
    let tx_b = Transaction::new(
        TransactionData::CreateAccount {
            account_id: account_b,
            public_key: keypair_b.public.clone(),
        },
        None,
    );

    let mut block_ab = Block::new(None, None);
    block_ab.add_transaction(tx_a.clone());
    block_ab.add_transaction(tx_b.clone());

    let mut block_ba = Block::new(None, None);
    block_ba.add_transaction(tx_b);
    block_ba.add_transaction(tx_a);

    assert_ne!(block_ab.hash(), block_ba.hash());
}

#[test]
fn test_transaction_hash_fields() {
    // Transactions differing in any hashed field hash differently, and
    // the signature is not part of the hash.
    let (account, keypair) = utils::generate_account_id();

    let tx1 = Transaction::new(
        TransactionData::Transfer {
            to: account.clone(),
            amount: 100,
        },
        Some(account.clone()),
    );
    let tx2 = Transaction::new(
        TransactionData::Transfer {
            to: account.clone(),
            amount: 101,
        },
        Some(account.clone()),
    );
    assert_ne!(tx1.hash(), tx2.hash());

    let mut signed = tx1.clone();
    signed.sign(&keypair);
    assert_eq!(tx1.hash(), signed.hash());

    let mut renamed = tx1.clone();
    renamed.from = None;
    assert_ne!(tx1.hash(), renamed.hash());
}

#[test]
fn test_block_hash_shape() {
    // The hash text is 64 lowercase hex digits of the 32-byte digest.
    let block = Block::new(None, None);
    let h = block.hash();
    assert_eq!(h.len(), 64);
    assert!(h.chars().all(|c| c.is_ascii_hexdigit() && !c.is_ascii_uppercase()));
}
