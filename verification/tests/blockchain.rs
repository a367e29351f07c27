use blockchain_workshop::traits::WorldState;
use blockchain_workshop::types::Block;
use blockchain_workshop::types::Blockchain;
use blockchain_workshop::types::Transaction;
use blockchain_workshop::types::TransactionData;
use blockchain_workshop::utils;
use blockchain_workshop::utils::append_block;
use blockchain_workshop::utils::append_block_with_tx;
use num::bigint::BigUint;

#[test]
fn test_new() {
    let bc = Blockchain::new();
    assert_eq!(bc.get_last_block_hash(), None);
}

#[test]
fn test_create_genesis_block() {
    let bc = &mut Blockchain::new();

    let (account, keypair) = utils::generate_account_id();

    let tx_create_account = Transaction::new(
        TransactionData::CreateAccount {
            account_id: account.clone(),
            public_key: keypair.public.clone(),
        },
        None,
    );

    let tx_mint_initial_supply = Transaction::new(
        TransactionData::MintInitialSupply {
            to: account.clone(),
            amount: 100_000_000,
        },
        None,
    );
    assert!(append_block_with_tx(bc, 1, vec![tx_create_account, tx_mint_initial_supply]).is_ok());

    let satoshi = bc.get_account_by_id(account);

    assert!(satoshi.is_some());
    assert_eq!(satoshi.unwrap().balance, 100_000_000);
}

#[test]
fn test_create_genesis_block_fails() {
    let mut bc = Blockchain::new();

    let (account, keypair) = utils::generate_account_id();

    let tx_create_account = Transaction::new(
        TransactionData::CreateAccount {
            account_id: account.clone(),
            public_key: keypair.public.clone(),
        },
        None,
    );

    let tx_mint_initial_supply = Transaction::new(
        TransactionData::MintInitialSupply {
            to: account.clone(),
            amount: 100_000_000,
        },
        None,
    );

    let mut block = Block::new(None, None);
    block.set_nonce(1);
    block.add_transaction(tx_mint_initial_supply);
    block.add_transaction(tx_create_account);

    assert_eq!(
        bc.append_block(block).err().unwrap(),
        "Error during tx execution: Invalid account.".to_string()
    );
}

#[test]
fn test_state_rollback_works() {
    let mut bc = Blockchain::new();

    let (account_satoshi, secret) = utils::generate_account_id();

    let tx_create_account = Transaction::new(
        TransactionData::CreateAccount {
            account_id: account_satoshi.clone(),
            public_key: secret.public.clone(),
        },
        None,
    );

    let tx_mint_initial_supply = Transaction::new(
        TransactionData::MintInitialSupply {
            to: account_satoshi.clone(),
            amount: 100_000_000,
        },
        None,
    );

    let mut block = Block::new(None, None);

    block.set_nonce(1);
    block.add_transaction(tx_create_account);
    block.add_transaction(tx_mint_initial_supply);

    assert!(bc.append_block(block).is_ok());

    let (account_alice, keypair_alice) = utils::generate_account_id();
    let (account_bob, keypair_bob) = utils::generate_account_id();

    let mut block = Block::new(bc.get_last_block_hash(), bc.get_last_block_number());
    let tx_create_alice = Transaction::new(
        TransactionData::CreateAccount {
            account_id: account_alice.clone(),
            public_key: keypair_alice.public.clone(),
        },
        None,
    );
    let tx_create_bob = Transaction::new(
        TransactionData::CreateAccount {
            account_id: account_bob.clone(),
            public_key: keypair_bob.public.clone(),
        },
        None,
    );

    block.set_nonce(2);
    block.add_transaction(tx_create_alice);
    block.add_transaction(tx_create_bob.clone());
    block.add_transaction(tx_create_bob);

    assert!(bc.append_block(block).is_err());

    assert!(bc.get_account_by_id(account_satoshi).is_some());
    assert!(bc.get_account_by_id(account_alice).is_none());
    assert!(bc.get_account_by_id(account_bob).is_none());
}

#[test]
fn test_validate() {
    let bc = &mut Blockchain::new();

    let (account_satoshi, keypair_satoshi) = utils::generate_account_id();

    let tx_create_account = Transaction::new(
        TransactionData::CreateAccount {
            account_id: account_satoshi.clone(),
            public_key: keypair_satoshi.public.clone(),
        },
        None,
    );
    let tx_mint_initial_supply = Transaction::new(
        TransactionData::MintInitialSupply {
            to: account_satoshi.clone(),
            amount: 100_000_000,
        },
        None,
    );
    assert!(append_block_with_tx(bc, 1, vec![tx_create_account, tx_mint_initial_supply]).is_ok());

    append_block(bc);
    append_block(bc);

    assert!(bc.validate().is_ok());

    let mut tampered = bc.blocks().get(0).clone();
    tampered.transactions[1].data = TransactionData::MintInitialSupply {
        to: account_satoshi,
        amount: 100,
    };
    bc.set_block(0, tampered);

    assert!(bc.validate().is_err());
}

#[test]
fn test_transfer() {
    let bc = &mut Blockchain::new();

    let (account_alice, alice_keypair) = utils::generate_account_id();
    let (account_bob, bob_keypair) = utils::generate_account_id();

    assert!(utils::create_accounts_and_transfer(
        bc,
        account_alice.clone(),
        account_bob.clone(),
        account_alice.clone(),
        account_bob.clone(),
        100_000_000,
        100_000,
        &alice_keypair,
        &bob_keypair
    )
    .is_ok());

    assert_eq!(
        bc.get_account_by_id(account_alice).unwrap().balance,
        99900000
    );
    assert_eq!(bc.get_account_by_id(account_bob).unwrap().balance, 100000);
}

#[test]
fn test_transfer_fail() {
    let bc = &mut Blockchain::new();

    let (account_alice, alice_keypair) = utils::generate_account_id();
    let (account_bob, bob_keypair) = utils::generate_account_id();

    assert!(utils::create_accounts_and_transfer(
        bc,
        account_alice.clone(),
        account_bob.clone(),
        account_bob.clone(),
        account_alice.clone(),
        100_000_000,
        100_000,
        &alice_keypair,
        &bob_keypair
    )
    .is_err());

    assert!(utils::create_accounts_and_transfer(
        bc,
        account_alice.clone(),
        account_bob.clone(),
        account_alice.clone(),
        account_bob.clone(),
        100_000_000,
        100_000_001,
        &alice_keypair,
        &bob_keypair
    )
    .is_err());

    let (account_bob2, _) = utils::generate_account_id();

    assert!(utils::create_accounts_and_transfer(
        bc,
        account_alice.clone(),
        account_bob.clone(),
        account_alice.clone(),
        account_bob2.clone(),
        100_000_000,
        100_000,
        &alice_keypair,
        &bob_keypair
    )
    .is_err());
}

#[test]
fn test_signature() {
    let bc = &mut Blockchain::new();

    let (account_1, account_1_keypair) = utils::generate_account_id();
    let (account_2, account_2_keypair) = utils::generate_account_id();

    let mut transfer_tx = Transaction::new(
        TransactionData::Transfer {
            to: account_2.clone(),
            amount: 100_000,
        },
        Some(account_1.clone()),
    );

    assert!(append_block_with_tx(
        bc,
        1,
        vec![
            Transaction::new(
                TransactionData::CreateAccount {
                    account_id: account_1.clone(),
                    public_key: account_1_keypair.public.clone()
                },
                None
            ),
            Transaction::new(
                TransactionData::CreateAccount {
                    account_id: account_2.clone(),
                    public_key: account_2_keypair.public.clone()
                },
                None
            ),
            Transaction::new(
                TransactionData::MintInitialSupply {
                    to: account_1.clone(),
                    amount: 100_000_000
                },
                None
            ),
            transfer_tx.clone()
        ]
    )
    .is_err());

    transfer_tx.sign(&account_1_keypair);

    assert!(append_block_with_tx(
        bc,
        1,
        vec![
            Transaction::new(
                TransactionData::CreateAccount {
                    account_id: account_1.clone(),
                    public_key: account_1_keypair.public.clone()
                },
                None
            ),
            Transaction::new(
                TransactionData::CreateAccount {
                    account_id: account_2.clone(),
                    public_key: account_2_keypair.public.clone()
                },
                None
            ),
            Transaction::new(
                TransactionData::MintInitialSupply {
                    to: account_1.clone(),
                    amount: 100_000_000
                },
                None
            ),
            transfer_tx
        ]
    )
    .is_ok());
}

#[test]
fn test_target() {
    let bc = &mut Blockchain::new();

    for _ in 0..12 {
        append_block(bc);
    }

    let mut prev_time = bc.blocks().head().unwrap().timestamp;

    let mut iter = bc.blocks().iter();
    while let Some(block) = iter.next() {
        println!("{}", prev_time - block.timestamp);
        prev_time = block.timestamp;
    }

    for i in 0..bc.blocks().len() {
        let target = BigUint::from_bytes_le(&bc.get_target(i as u128));
        println!("{} {}", i, target);
    }
}

#[test]
fn test_admit_mined_block() {
    // Admission is exact: a mined block passes against the target it was
    // mined for, and is refused against an unreachably small target.
    let bc = &mut Blockchain::new();
    let (account, keypair) = utils::generate_account_id();

    let mut block = Block::new(None, None);
    block.add_transaction(Transaction::new(
        TransactionData::CreateAccount {
            account_id: account.clone(),
            public_key: keypair.public.clone(),
        },
        None,
    ));
    let target = bc.get_latest_target();
    blockchain_workshop::types::mine(&mut block, &target);

    let tiny_target = vec![1u8];
    assert_eq!(
        bc.admit_mined_block(block.clone(), &tiny_target).err().unwrap(),
        "Block has invalid hash"
    );
    assert_eq!(bc.blocks().len(), 0);

    assert!(bc.admit_mined_block(block, &target).is_ok());
    assert_eq!(bc.blocks().len(), 1);
    assert!(bc.get_account_by_id(account).is_some());
}
