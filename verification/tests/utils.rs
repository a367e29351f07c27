use std::str::FromStr;

use blake2::Blake2s;
use blake2::Digest;
use blockchain_workshop::traits::WorldState;
use blockchain_workshop::types::Blockchain;
use blockchain_workshop::types::Transaction;
use blockchain_workshop::types::TransactionData;
use blockchain_workshop::utils;
use blockchain_workshop::utils::append_block_with_tx;
use blockchain_workshop::utils::to_compact_format;
use num::bigint::BigUint;

#[test]
fn test_generate() {
    println!("{:?}", utils::generate_account_id());
}

#[test]
fn test_target_compacted() {
    let target =
        BigUint::from_str("161578008857017275969393492955354620126364423170461532160").unwrap();
    println!("{}", to_compact_format(target.to_bytes_le()));
}

#[test]
fn test_compact_exact() {
    // Ten characters: 0x, the half-byte length, six mantissa digits.
    let target =
        BigUint::from_str("161578008857017275969393492955354620126364423170461532160").unwrap();
    let compact = to_compact_format(target.to_bytes_le());
    assert_eq!(compact, "0x180696f4");
    assert_eq!(compact.len(), 10);
}

#[test]
fn test_account_id_is_hex_digest_of_public_key() {
    // The derived id equals the hex blake2s digest of the public key.
    let (account_id, keypair) = utils::generate_account_id();
    let expected = hex::encode(Blake2s::digest(&keypair.public));
    assert_eq!(account_id, expected);
    assert_eq!(account_id.len(), 64);
}

#[test]
fn test_initial_target_value() {
    // An empty chain's next target is the seed, five times ten to the 73rd.
    let bc = Blockchain::new();
    let expected = BigUint::from(5u32) * BigUint::from(10u32).pow(73);
    assert_eq!(BigUint::from_bytes_le(&bc.get_latest_target()), expected);
}

#[test]
fn test_target_stays_clamped() {
    // Between adjacent blocks the target moves by at most a factor of four.
    let bc = &mut Blockchain::new();
    for _ in 0..3 {
        utils::append_block(bc);
    }
    for i in 0..2u32 {
        let t0 = BigUint::from_bytes_le(&bc.get_target(i as u128));
        let t1 = BigUint::from_bytes_le(&bc.get_target((i + 1) as u128));
        assert!(t1.clone() <= t0.clone() * BigUint::from(4u32));
        assert!(t0 / BigUint::from(4u32) <= t1);
    }
}

#[test]
fn test_error_messages() {
    let bc = &mut Blockchain::new();
    let (account, keypair) = utils::generate_account_id();

    // A block with no transactions is refused outright.
    let err = append_block_with_tx(bc, 1, vec![]).err().unwrap();
    assert_eq!(err, "Block has 0 transactions.");

    let tx_create = Transaction::new(
        TransactionData::CreateAccount {
            account_id: account.clone(),
            public_key: keypair.public.clone(),
        },
        None,
    );
    let tx_mint = Transaction::new(
        TransactionData::MintInitialSupply {
            to: account.clone(),
            amount: 100_000_000,
        },
        None,
    );
    assert!(append_block_with_tx(bc, 1, vec![tx_create.clone(), tx_mint.clone()]).is_ok());

    // A duplicate account id rolls the block back with its own message.
    let err = append_block_with_tx(bc, 1, vec![tx_create]).err().unwrap();
    assert_eq!(err, "Error during tx execution: AccountId already exist");

    // Minting outside the genesis block is refused.
    let err = append_block_with_tx(bc, 1, vec![tx_mint]).err().unwrap();
    assert_eq!(
        err,
        "Error during tx execution: Initial supply can be minted only in genesis block."
    );

    // An unsigned transfer is refused by the signature check.
    let unsigned = Transaction::new(
        TransactionData::Transfer {
            to: account.clone(),
            amount: 1,
        },
        Some(account.clone()),
    );
    let err = append_block_with_tx(bc, 1, vec![unsigned]).err().unwrap();
    assert_eq!(
        err,
        "Error during tx execution: Error while verifying signature: Error: msg should be signed"
    );

    // A signed transfer of more than the balance is refused.
    let mut too_much = Transaction::new(
        TransactionData::Transfer {
            to: account.clone(),
            amount: 100_000_001,
        },
        Some(account.clone()),
    );
    too_much.sign(&keypair);
    let err = append_block_with_tx(bc, 1, vec![too_much]).err().unwrap();
    assert_eq!(
        err,
        "Error during tx execution: You can't transfer more tokens than you have"
    );

    // A transfer from nowhere is refused.
    let mut from_nowhere = Transaction::new(
        TransactionData::Transfer {
            to: account.clone(),
            amount: 1,
        },
        None,
    );
    from_nowhere.sign(&keypair);
    let err = append_block_with_tx(bc, 1, vec![from_nowhere]).err().unwrap();
    assert_eq!(
        err,
        "Error during tx execution: You can't make transfer from non-existing account"
    );
}

#[test]
fn test_signature_breaks_on_tamper() {
    // A signature checks out over the signed fields and fails after any
    // of them is changed.
    let bc = &mut Blockchain::new();
    let (account, keypair) = utils::generate_account_id();

    let tx_create = Transaction::new(
        TransactionData::CreateAccount {
            account_id: account.clone(),
            public_key: keypair.public.clone(),
        },
        None,
    );
    let tx_mint = Transaction::new(
        TransactionData::MintInitialSupply {
            to: account.clone(),
            amount: 100_000_000,
        },
        None,
    );
    assert!(append_block_with_tx(bc, 1, vec![tx_create, tx_mint]).is_ok());

    let mut transfer = Transaction::new(
        TransactionData::Transfer {
            to: account.clone(),
            amount: 100,
        },
        Some(account.clone()),
    );
    transfer.sign(&keypair);
    assert!(transfer.verify_signature(bc).is_ok());

    let mut tampered = transfer.clone();
    tampered.data = TransactionData::Transfer {
        to: account.clone(),
        amount: 101,
    };
    assert_eq!(
        tampered.verify_signature(bc).err().unwrap(),
        "Error: error occurred while verifying signature"
    );

    // A signature by the wrong key fails too.
    let (_, other_keypair) = utils::generate_account_id();
    let mut wrong_signer = Transaction::new(
        TransactionData::Transfer {
            to: account.clone(),
            amount: 100,
        },
        Some(account.clone()),
    );
    wrong_signer.sign(&other_keypair);
    assert_eq!(
        wrong_signer.verify_signature(bc).err().unwrap(),
        "Error: error occurred while verifying signature"
    );
}

#[test]
fn test_validate_names_block() {
    // Tampering with a mint amount is reported against the block holding it.
    let bc = &mut Blockchain::new();
    let (account, keypair) = utils::generate_account_id();

    let tx_create = Transaction::new(
        TransactionData::CreateAccount {
            account_id: account.clone(),
            public_key: keypair.public.clone(),
        },
        None,
    );
    let tx_mint = Transaction::new(
        TransactionData::MintInitialSupply {
            to: account.clone(),
            amount: 100_000_000,
        },
        None,
    );
    assert!(append_block_with_tx(bc, 1, vec![tx_create, tx_mint]).is_ok());
    utils::append_block(bc);
    utils::append_block(bc);
    assert!(bc.validate().is_ok());

    let mut tampered = bc.blocks().get(0).clone();
    tampered.transactions[1].data = TransactionData::MintInitialSupply {
        to: account.clone(),
        amount: 100,
    };
    bc.set_block(0, tampered);

    assert_eq!(bc.validate().err().unwrap(), "Block 1 has invalid hash");
}

#[test]
fn test_rollback_leaves_state_bit_identical() {
    // A failing block leaves every balance exactly as it was.
    let bc = &mut Blockchain::new();
    let (account, keypair) = utils::generate_account_id();

    let tx_create = Transaction::new(
        TransactionData::CreateAccount {
            account_id: account.clone(),
            public_key: keypair.public.clone(),
        },
        None,
    );
    let tx_mint = Transaction::new(
        TransactionData::MintInitialSupply {
            to: account.clone(),
            amount: 100_000_000,
        },
        None,
    );
    assert!(append_block_with_tx(bc, 1, vec![tx_create.clone(), tx_mint]).is_ok());

    let (account_b, keypair_b) = utils::generate_account_id();
    let tx_create_b = Transaction::new(
        TransactionData::CreateAccount {
            account_id: account_b.clone(),
            public_key: keypair_b.public.clone(),
        },
        None,
    );
    // The second create duplicates the genesis account and fails the block.
    assert!(append_block_with_tx(bc, 1, vec![tx_create_b, tx_create]).is_err());

    assert_eq!(bc.get_account_by_id(account).unwrap().balance, 100_000_000);
    assert!(bc.get_account_by_id(account_b).is_none());
    assert_eq!(bc.blocks().len(), 1);
}
