use blockchain_workshop::traits::WorldState;
use blockchain_workshop::types::mine;
use blockchain_workshop::types::Blockchain;
use blockchain_workshop::types::Transaction;
use blockchain_workshop::types::TransactionData;
use blockchain_workshop::utils;
use blockchain_workshop::utils::append_block_with_tx;

fn two_block_chain() -> (Blockchain, String) {
    let mut bc = Blockchain::new();
    let (account, keypair) = utils::generate_account_id();
    let tx_create = Transaction::new(
        TransactionData::CreateAccount {
            account_id: account.clone(),
            public_key: keypair.public.clone(),
        },
        None,
    );
    let tx_mint = Transaction::new(
        TransactionData::MintInitialSupply {
            to: account.clone(),
            amount: 100_000_000,
        },
        None,
    );
    assert!(append_block_with_tx(&mut bc, 1, vec![tx_create, tx_mint]).is_ok());
    utils::append_block(&mut bc);
    assert!(bc.validate().is_ok());
    (bc, account)
}

#[test]
fn test_validate_missing_prev_hash() {
    let (mut bc, _) = two_block_chain();

    let mut tampered = bc.blocks().get(1).clone();
    tampered.prev_hash = None;
    let target = bc.get_target(1);
    mine(&mut tampered, &target);
    bc.set_block(1, tampered);

    assert_eq!(
        bc.validate().err().unwrap(),
        "Block 2 doesn't have prev_hash"
    );
}

#[test]
fn test_validate_genesis_prev_hash() {
    let (mut bc, _) = two_block_chain();

    let stray_hash = bc.get_last_block_hash();
    let mut tampered = bc.blocks().get(0).clone();
    tampered.prev_hash = stray_hash;
    let target = bc.get_target(0);
    mine(&mut tampered, &target);
    bc.set_block(0, tampered);

    assert_eq!(
        bc.validate().err().unwrap(),
        "Genesis block shouldn't have prev_hash"
    );
}

#[test]
fn test_validate_link_mismatch() {
    let (mut bc, _) = two_block_chain();

    // Re-mining the genesis block changes its hash, so the next block's
    // predecessor link no longer matches.
    let mut tampered = bc.blocks().get(0).clone();
    tampered.set_nonce(7);
    let target = bc.get_target(0);
    mine(&mut tampered, &target);
    bc.set_block(0, tampered);

    assert_eq!(
        bc.validate().err().unwrap(),
        "Block 2 prev_hash doesn't match Block 1 hash"
    );
}

#[test]
fn test_mint_overflow_is_rejected() {
    // A mint that would wrap the balance fails the block instead.
    let mut bc = Blockchain::new();
    let (account, keypair) = utils::generate_account_id();
    let tx_create = Transaction::new(
        TransactionData::CreateAccount {
            account_id: account.clone(),
            public_key: keypair.public.clone(),
        },
        None,
    );
    let tx_mint_all = Transaction::new(
        TransactionData::MintInitialSupply {
            to: account.clone(),
            amount: u128::MAX,
        },
        None,
    );
    let tx_mint_more = Transaction::new(
        TransactionData::MintInitialSupply {
            to: account.clone(),
            amount: 1,
        },
        None,
    );
    let err = append_block_with_tx(&mut bc, 1, vec![tx_create, tx_mint_all, tx_mint_more])
        .err()
        .unwrap();
    assert_eq!(err, "Error during tx execution: Balance overflow.");
    assert!(bc.get_account_by_id(account).is_none());
}

#[test]
fn test_signature_needs_sender() {
    // A signed transfer without a sender, or from an unknown sender, is
    // refused with the sender message.
    let (mut bc, account) = two_block_chain();

    let (_, keypair) = utils::generate_account_id();
    let mut no_sender = Transaction::new(
        TransactionData::Transfer {
            to: account.clone(),
            amount: 1,
        },
        None,
    );
    no_sender.sign(&keypair);
    assert_eq!(
        no_sender.verify_signature(&mut bc).err().unwrap(),
        "Error: msg should have sender to sign it"
    );

    let (unknown, unknown_keypair) = utils::generate_account_id();
    let mut unknown_sender = Transaction::new(
        TransactionData::Transfer {
            to: account.clone(),
            amount: 1,
        },
        Some(unknown),
    );
    unknown_sender.sign(&unknown_keypair);
    assert_eq!(
        unknown_sender.verify_signature(&mut bc).err().unwrap(),
        "Error: msg should have sender to sign it"
    );
}

#[test]
fn test_transfer_to_unknown_message() {
    let (mut bc, account) = two_block_chain();

    let (unknown, _) = utils::generate_account_id();
    let mut transfer = Transaction::new(
        TransactionData::Transfer {
            to: unknown,
            amount: 1,
        },
        Some(account.clone()),
    );
    let (_, keypair) = utils::generate_account_id();
    transfer.sign(&keypair);
    assert_eq!(
        append_block_with_tx(&mut bc, 1, vec![transfer]).err().unwrap(),
        "Error during tx execution: You can't make transfer to non-existing account"
    );
}
